//! Applies a task's rubric to a run, producing a scored report. Every
//! objective check here is a pure function of already-captured artifacts:
//! the stage results, and the contents of the decision trace and of the
//! scope-probe report, which the caller reads and hands over.

use vstd::prelude::*;

use crate::quantity::{first_is_larger, ge, is_nan, lt, max_bits, Quantity};
use crate::runner::{planned_stages, stage_names, Phase, Pipeline, RunResult, StageRun};
use crate::task::{Check, Criterion, Task};
use crate::text::{
    contains, contains_str, occurs_at, decimal, decimal_string, first_line, first_line_of, join, joined,
    views,
};

verus! {

/// The outcome of one criterion.
#[derive(Debug, Clone, Copy, PartialEq, Eq, Structural)]
pub enum Verdict {
    Pass,
    Fail,
    /// A criterion that is not scored automatically.
    NeedsHuman,
}

/// One scored rubric line.
#[derive(Debug, Clone)]
pub struct CriterionResult {
    pub id: String,
    pub description: String,
    pub verdict: Verdict,
    pub detail: String,
}

/// The scored rubric of one run.
#[derive(Debug, Clone)]
pub struct ScoreReport {
    pub task_id: String,
    pub backend: String,
    pub results: Vec<CriterionResult>,
}

/// A decision's stated confidence, with `1 - confidence` beside it.
#[derive(Debug, Clone)]
pub struct Confidence {
    pub value: Quantity,
    pub complement: Quantity,
}

/// One record of a decision trace, with the fields the scorer reads as they
/// were found: `key` when it is a string, `kind` when it is a string, and
/// `confidence` when it is a number.
#[derive(Debug, Clone)]
pub struct TraceRecord {
    pub key: Option<String>,
    pub kind: Option<String>,
    pub confidence: Option<Confidence>,
}

/// A decision with the confidence it is scored by.
#[derive(Debug, Clone)]
pub struct Decision {
    pub key: String,
    pub confidence: Quantity,
}

/// What the caller read from the run's artifact files: the records of the
/// decision trace, and the `flat_top_at_max` field of the scope-probe report
/// (`None` when the report has no such number). Each is an error text when
/// the file could not be read or decoded. Either is consulted only when the
/// run has that artifact.
#[derive(Debug)]
pub struct Artifacts {
    pub trace: Result<Vec<TraceRecord>, String>,
    pub scope_probe: Result<Option<Quantity>, String>,
}

impl Artifacts {
    /// Artifacts of a run that captured neither file.
    pub fn none() -> (r: Artifacts)
        ensures
            r.trace matches Ok(v) && v@.len() == 0,
            r.scope_probe matches Ok(None),
    {
        Artifacts { trace: Ok(Vec::new()), scope_probe: Ok(None) }
    }
}

// ---------------------------------------------------------------------------
// stages_pass

/// The names of the stages that did not pass, in order.
pub open spec fn failed_names(stages: Seq<StageRun>) -> Seq<Seq<char>>
    decreases stages.len(),
{
    if stages.len() == 0 {
        Seq::empty()
    } else {
        let prev = failed_names(stages.drop_last());
        if stages.last().spec_passed() {
            prev
        } else {
            prev.push(stages.last().stage@)
        }
    }
}

/// No stage is missing from `failed_names` and none is there by mistake.
pub proof fn lemma_failed_names_empty(stages: Seq<StageRun>)
    ensures
        failed_names(stages).len() == 0 <==> forall|i: int|
            0 <= i < stages.len() ==> #[trigger] stages[i].spec_passed(),
    decreases stages.len(),
{
    if stages.len() > 0 {
        lemma_failed_names_empty(stages.drop_last());
        if failed_names(stages).len() == 0 {
            assert forall|i: int| 0 <= i < stages.len() implies #[trigger] stages[i].spec_passed() by {
                if i < stages.len() - 1 {
                    assert(stages.drop_last()[i] == stages[i]);
                }
            }
        }
        if forall|i: int| 0 <= i < stages.len() ==> #[trigger] stages[i].spec_passed() {
            assert forall|i: int| 0 <= i < stages.drop_last().len() implies #[trigger] stages.drop_last()[i].spec_passed() by {
                assert(stages.drop_last()[i] == stages[i]);
            }
            assert(stages[stages.len() - 1].spec_passed());
        }
    }
}

/// What `stages_pass` concludes about a run.
pub open spec fn stages_pass_outcome(run: RunResult) -> (Verdict, Seq<char>) {
    let stages = run.stages@;
    if stages.len() == 0 {
        (Verdict::Fail, "no stages ran"@)
    } else if failed_names(stages).len() == 0 {
        (Verdict::Pass, "all "@ + decimal(stages.len()) + " stage(s) exited 0"@)
    } else {
        (Verdict::Fail, "failed: "@ + joined(failed_names(stages), ", "@))
    }
}

/// Every stage that ran must have exited 0; a run with no stages fails
/// rather than passing vacuously.
pub fn score_stages_pass(run: &RunResult) -> (r: (Verdict, String))
    ensures
        r.0 == stages_pass_outcome(*run).0,
        r.1@ == stages_pass_outcome(*run).1,
        r.0 == Verdict::Pass <==> run.stages@.len() > 0 && forall|i: int|
            0 <= i < run.stages@.len() ==> #[trigger] run.stages@[i].spec_passed(),
{
    proof {
        lemma_failed_names_empty(run.stages@);
    }
    let n = run.stages.len();
    if n == 0 {
        return (Verdict::Fail, String::from_str("no stages ran"));
    }
    let mut failed: Vec<String> = Vec::new();
    let mut i: usize = 0;
    while i < n
        invariant
            n == run.stages@.len(),
            i <= n,
            views(failed@) == failed_names(run.stages@.take(i as int)),
        decreases n - i,
    {
        assert(run.stages@.take(i + 1).drop_last() =~= run.stages@.take(i as int));
        let s = &run.stages[i];
        if !s.passed() {
            failed.push(s.stage.clone());
            assert(views(failed@) =~= failed_names(run.stages@.take(i as int)).push(s.stage@));
        }
        i = i + 1;
    }
    assert(run.stages@.take(n as int) =~= run.stages@);
    if failed.len() == 0 {
        let mut d = String::from_str("all ");
        d.append(decimal_string(n as u64).as_str());
        d.append(" stage(s) exited 0");
        (Verdict::Pass, d)
    } else {
        let mut d = String::from_str("failed: ");
        d.append(join(&failed, ", ").as_str());
        (Verdict::Fail, d)
    }
}

// ---------------------------------------------------------------------------
// min_decision_confidence

/// Whether a record's kind is a yes/no answer, whose confidence is the
/// probability of "yes".
pub open spec fn is_noul(kind: Option<String>) -> bool {
    kind matches Some(k) && k@ == "noul"@
}

/// The confidence a decision is scored by, as (bits, shown text): a yes/no
/// answer at probability `p` is `max(p, 1 - p)` sure (a firm "no" at 0.02 is
/// 0.98 sure); any other decision is as sure as its stated confidence.
pub open spec fn decisive(c: Confidence, noul: bool) -> (u64, Seq<char>) {
    if noul && !first_is_larger(c.value.bits, c.complement.bits) {
        (c.complement.bits, c.complement.shown@)
    } else {
        (c.value.bits, c.value.shown@)
    }
}

/// The decision a record stands for, as (key, bits, shown text); none when
/// the record lacks a string key or a numeric confidence.
pub open spec fn decision_of(r: TraceRecord) -> Option<(Seq<char>, u64, Seq<char>)> {
    match (r.key, r.confidence) {
        (Some(k), Some(c)) => {
            let d = decisive(c, is_noul(r.kind));
            Some((k@, d.0, d.1))
        },
        _ => None,
    }
}

/// The decisions of a trace, in order, skipping records that are not
/// decisions.
pub open spec fn decisions(records: Seq<TraceRecord>) -> Seq<(Seq<char>, u64, Seq<char>)>
    decreases records.len(),
{
    if records.len() == 0 {
        Seq::empty()
    } else {
        let prev = decisions(records.drop_last());
        match decision_of(records.last()) {
            Some(d) => prev.push(d),
            None => prev,
        }
    }
}

/// A decision as (key, bits, shown text).
pub open spec fn decision_view(d: Decision) -> (Seq<char>, u64, Seq<char>) {
    (d.key@, d.confidence.bits, d.confidence.shown@)
}

fn decisive_confidence(c: &Confidence, kind: &Option<String>) -> (r: Quantity)
    ensures
        (r.bits, r.shown@) == decisive(*c, is_noul(*kind)),
{
    let noul = match kind {
        Some(k) => *k == String::from_str("noul"),
        None => false,
    };
    if noul {
        Quantity::larger(&c.value, &c.complement)
    } else {
        Quantity { bits: c.value.bits, shown: c.value.shown.clone() }
    }
}

/// The decisions of a trace with the confidence each is scored by, in
/// order; records without a string key or a numeric confidence are skipped.
pub fn trace_decisions(records: &Vec<TraceRecord>) -> (r: Vec<Decision>)
    ensures
        r@.map_values(|d: Decision| decision_view(d)) == decisions(records@),
{
    let mut r: Vec<Decision> = Vec::new();
    let n = records.len();
    let mut i: usize = 0;
    while i < n
        invariant
            n == records@.len(),
            i <= n,
            r@.map_values(|d: Decision| decision_view(d)) == decisions(records@.take(i as int)),
        decreases n - i,
    {
        assert(records@.take(i + 1).drop_last() =~= records@.take(i as int));
        assert(records@.take(i + 1).last() == records@[i as int]);
        let rec = &records[i];
        match (&rec.key, &rec.confidence) {
            (Some(k), Some(c)) => {
                let q = decisive_confidence(c, &rec.kind);
                let d = Decision { key: k.clone(), confidence: q };
                let ghost before = r@;
                r.push(d);
                assert(r@.map_values(|d: Decision| decision_view(d)) =~= before.map_values(
                    |d: Decision| decision_view(d),
                ).push(decision_view(d)));
            },
            _ => {},
        }
        i = i + 1;
    }
    assert(records@.take(n as int) =~= records@);
    r
}

/// The decisions below `threshold`, each rendered as `key=confidence`.
pub open spec fn below_items(ds: Seq<(Seq<char>, u64, Seq<char>)>, threshold: u64) -> Seq<Seq<char>>
    decreases ds.len(),
{
    if ds.len() == 0 {
        Seq::empty()
    } else {
        let prev = below_items(ds.drop_last(), threshold);
        let d = ds.last();
        if lt(d.1, threshold) {
            prev.push(d.0 + "="@ + d.2)
        } else {
            prev
        }
    }
}

/// No decision is below the threshold exactly when nothing is listed.
pub proof fn lemma_below_items_empty(ds: Seq<(Seq<char>, u64, Seq<char>)>, threshold: u64)
    ensures
        below_items(ds, threshold).len() == 0 <==> forall|i: int|
            0 <= i < ds.len() ==> !lt(#[trigger] ds[i].1, threshold),
    decreases ds.len(),
{
    if ds.len() > 0 {
        lemma_below_items_empty(ds.drop_last(), threshold);
        if below_items(ds, threshold).len() == 0 {
            assert forall|i: int| 0 <= i < ds.len() implies !lt(#[trigger] ds[i].1, threshold) by {
                if i < ds.len() - 1 {
                    assert(ds.drop_last()[i] == ds[i]);
                }
            }
        }
        if forall|i: int| 0 <= i < ds.len() ==> !lt(#[trigger] ds[i].1, threshold) {
            assert forall|i: int| 0 <= i < ds.drop_last().len() implies !lt(#[trigger] ds.drop_last()[i].1, threshold) by {
                assert(ds.drop_last()[i] == ds[i]);
            }
            assert(!lt(ds[ds.len() - 1].1, threshold));
        }
    }
}

/// What `min_decision_confidence` concludes, given whether the run captured
/// a decision trace and what reading it gave.
pub open spec fn min_confidence_outcome(
    captured: bool,
    trace: Result<Vec<TraceRecord>, String>,
    threshold: Quantity,
) -> (Verdict, Seq<char>) {
    if !captured {
        (Verdict::Fail, "no decision trace captured"@)
    } else {
        match trace {
            Err(e) => (Verdict::Fail, "could not read trace: "@ + e@),
            Ok(records) => {
                let ds = decisions(records@);
                let below = below_items(ds, threshold.bits);
                if ds.len() == 0 {
                    (Verdict::Fail, "decision trace was empty"@)
                } else if below.len() == 0 {
                    (
                        Verdict::Pass,
                        "all "@ + decimal(ds.len()) + " decision(s) >= "@ + threshold.shown@,
                    )
                } else {
                    (Verdict::Fail, "below "@ + threshold.shown@ + ": "@ + joined(below, ", "@))
                }
            },
        }
    }
}

/// Every decision in the run's trace must clear `threshold`.
pub fn score_min_confidence(
    run: &RunResult,
    trace: &Result<Vec<TraceRecord>, String>,
    threshold: &Quantity,
) -> (r: (Verdict, String))
    ensures
        r.0 == min_confidence_outcome(run.decision_trace is Some, *trace, *threshold).0,
        r.1@ == min_confidence_outcome(run.decision_trace is Some, *trace, *threshold).1,
{
    if run.decision_trace.is_none() {
        return (Verdict::Fail, String::from_str("no decision trace captured"));
    }
    match trace {
        Err(e) => {
            let mut d = String::from_str("could not read trace: ");
            d.append(e.as_str());
            (Verdict::Fail, d)
        },
        Ok(records) => {
            let ds = trace_decisions(records);
            let ghost dv = ds@.map_values(|d: Decision| decision_view(d));
            if ds.len() == 0 {
                return (Verdict::Fail, String::from_str("decision trace was empty"));
            }
            let mut below: Vec<String> = Vec::new();
            let n = ds.len();
            let mut i: usize = 0;
            while i < n
                invariant
                    n == ds@.len(),
                    i <= n,
                    dv == ds@.map_values(|d: Decision| decision_view(d)),
                    views(below@) == below_items(dv.take(i as int), threshold.bits),
                decreases n - i,
            {
                assert(dv.take(i + 1).drop_last() =~= dv.take(i as int));
                assert(dv.take(i + 1).last() == decision_view(ds@[i as int]));
                let d = &ds[i];
                if d.confidence.is_below(threshold) {
                    let mut item = d.key.clone();
                    item.append("=");
                    item.append(d.confidence.shown.as_str());
                    below.push(item);
                    assert(views(below@) =~= below_items(dv.take(i as int), threshold.bits).push(
                        d.key@ + "="@ + d.confidence.shown@,
                    ));
                }
                i = i + 1;
            }
            assert(dv.take(n as int) =~= dv);
            if below.len() == 0 {
                let mut d = String::from_str("all ");
                d.append(decimal_string(n as u64).as_str());
                d.append(" decision(s) >= ");
                d.append(threshold.shown.as_str());
                (Verdict::Pass, d)
            } else {
                let mut d = String::from_str("below ");
                d.append(threshold.shown.as_str());
                d.append(": ");
                d.append(join(&below, ", ").as_str());
                (Verdict::Fail, d)
            }
        },
    }
}

// ---------------------------------------------------------------------------
// drc_clean

/// `i` is the position of the first stage called `name`.
pub open spec fn is_first_named(stages: Seq<StageRun>, name: Seq<char>, i: int) -> bool {
    &&& 0 <= i < stages.len()
    &&& stages[i].stage@ == name
    &&& forall|j: int| 0 <= j < i ==> stages[j].stage@ != name
}

proof fn lemma_first_named_unique(stages: Seq<StageRun>, name: Seq<char>, i: int, k: int)
    requires
        is_first_named(stages, name, i),
        is_first_named(stages, name, k),
    ensures
        i == k,
{
    if i < k {
        assert(stages[i].stage@ != name);
    } else if k < i {
        assert(stages[k].stage@ != name);
    }
}

/// What `drc_clean` concludes: the first stage called "drc" must have passed
/// and reported zero errors; the detail is the first line of its output.
pub open spec fn drc_outcome(run: RunResult) -> (Verdict, Seq<char>) {
    let stages = run.stages@;
    if exists|i: int| is_first_named(stages, "drc"@, i) {
        let s = stages[choose|i: int| is_first_named(stages, "drc"@, i)];
        (
            if s.spec_passed() && contains(s.stdout@, ": 0 error(s)"@) {
                Verdict::Pass
            } else {
                Verdict::Fail
            },
            first_line(s.stdout@),
        )
    } else {
        (Verdict::Fail, "drc stage did not run"@)
    }
}

/// DRC must have run and reported zero errors.
pub fn score_drc_clean(run: &RunResult) -> (r: (Verdict, String))
    ensures
        r.0 == drc_outcome(*run).0,
        r.1@ == drc_outcome(*run).1,
{
    let name = String::from_str("drc");
    let n = run.stages.len();
    let mut i: usize = 0;
    while i < n
        invariant
            n == run.stages@.len(),
            i <= n,
            name@ == "drc"@,
            forall|j: int| 0 <= j < i ==> run.stages@[j].stage@ != "drc"@,
        decreases n - i,
    {
        let s = &run.stages[i];
        if s.stage == name {
            proof {
                assert(is_first_named(run.stages@, "drc"@, i as int));
                let k = choose|k: int| is_first_named(run.stages@, "drc"@, k);
                lemma_first_named_unique(run.stages@, "drc"@, i as int, k);
            }
            let detail = first_line_of(s.stdout.as_str());
            let clean = s.passed() && contains_str(s.stdout.as_str(), ": 0 error(s)");
            return (if clean { Verdict::Pass } else { Verdict::Fail }, detail);
        }
        i = i + 1;
    }
    assert(!exists|k: int| is_first_named(run.stages@, "drc"@, k));
    (Verdict::Fail, String::from_str("drc stage did not run"))
}

// ---------------------------------------------------------------------------
// spice_clips

/// What `spice_clips` concludes, given whether the run captured a
/// scope-probe report and what reading its `flat_top_at_max` gave.
pub open spec fn spice_clips_outcome(
    captured: bool,
    report: Result<Option<Quantity>, String>,
    min_flat_top_at_max: Quantity,
) -> (Verdict, Seq<char>) {
    if !captured {
        (Verdict::Fail, "scope-probe did not produce a report"@)
    } else {
        match report {
            Err(e) => (Verdict::Fail, "could not read scope-probe report: "@ + e@),
            Ok(None) => (
                Verdict::Fail,
                "could not read scope-probe report: report missing flat_top_at_max"@,
            ),
            Ok(Some(flat_top)) => if ge(flat_top.bits, min_flat_top_at_max.bits) {
                (
                    Verdict::Pass,
                    "flat-top "@ + flat_top.shown@ + " >= "@ + min_flat_top_at_max.shown@
                        + " at max amplitude"@,
                )
            } else {
                (
                    Verdict::Fail,
                    "flat-top "@ + flat_top.shown@ + " < "@ + min_flat_top_at_max.shown@
                        + " at max amplitude"@,
                )
            },
        }
    }
}

/// The measured flat-top fraction at the largest amplitude must reach
/// `min_flat_top_at_max`.
pub fn score_spice_clips(
    run: &RunResult,
    report: &Result<Option<Quantity>, String>,
    min_flat_top_at_max: &Quantity,
) -> (r: (Verdict, String))
    ensures
        r.0 == spice_clips_outcome(run.scope_probe_json is Some, *report, *min_flat_top_at_max).0,
        r.1@ == spice_clips_outcome(run.scope_probe_json is Some, *report, *min_flat_top_at_max).1,
{
    if run.scope_probe_json.is_none() {
        return (Verdict::Fail, String::from_str("scope-probe did not produce a report"));
    }
    match report {
        Err(e) => {
            let mut d = String::from_str("could not read scope-probe report: ");
            d.append(e.as_str());
            (Verdict::Fail, d)
        },
        Ok(None) => (
            Verdict::Fail,
            String::from_str("could not read scope-probe report: report missing flat_top_at_max"),
        ),
        Ok(Some(flat_top)) => {
            let pass = flat_top.is_at_least(min_flat_top_at_max);
            let mut d = String::from_str("flat-top ");
            d.append(flat_top.shown.as_str());
            d.append(if pass { " >= " } else { " < " });
            d.append(min_flat_top_at_max.shown.as_str());
            d.append(" at max amplitude");
            (if pass { Verdict::Pass } else { Verdict::Fail }, d)
        },
    }
}

// ---------------------------------------------------------------------------
// the whole rubric

/// What a check concludes about a run and its artifacts.
pub open spec fn check_outcome(check: Check, run: RunResult, artifacts: Artifacts) -> (Verdict, Seq<char>) {
    match check {
        Check::StagesPass => stages_pass_outcome(run),
        Check::MinDecisionConfidence { threshold } => min_confidence_outcome(
            run.decision_trace is Some,
            artifacts.trace,
            threshold,
        ),
        Check::DrcClean => drc_outcome(run),
        Check::SpiceClips { min_flat_top_at_max, .. } => spice_clips_outcome(
            run.scope_probe_json is Some,
            artifacts.scope_probe,
            min_flat_top_at_max,
        ),
        Check::Subjective => (Verdict::NeedsHuman, "needs human review"@),
    }
}

/// `result` is the scoring of `criterion`.
pub open spec fn scores_criterion(
    result: CriterionResult,
    criterion: Criterion,
    run: RunResult,
    artifacts: Artifacts,
) -> bool {
    &&& result.id@ == criterion.id@
    &&& result.description@ == criterion.description@
    &&& result.verdict == check_outcome(criterion.check, run, artifacts).0
    &&& result.detail@ == check_outcome(criterion.check, run, artifacts).1
}

/// `report` is the scoring of `task`'s rubric against `run`: one result per
/// criterion, in rubric order.
pub open spec fn scores_task(report: ScoreReport, task: Task, run: RunResult, artifacts: Artifacts) -> bool {
    &&& report.task_id@ == task.id@
    &&& report.backend@ == run.backend@
    &&& report.results@.len() == task.rubric@.len()
    &&& forall|i: int|
        0 <= i < task.rubric@.len() ==> scores_criterion(
            #[trigger] report.results@[i],
            task.rubric@[i],
            run,
            artifacts,
        )
}

/// Scores one criterion.
pub fn score_one(criterion: &Criterion, run: &RunResult, artifacts: &Artifacts) -> (r: CriterionResult)
    ensures
        scores_criterion(r, *criterion, *run, *artifacts),
{
    let (verdict, detail) = match &criterion.check {
        Check::StagesPass => score_stages_pass(run),
        Check::MinDecisionConfidence { threshold } => score_min_confidence(
            run,
            &artifacts.trace,
            threshold,
        ),
        Check::DrcClean => score_drc_clean(run),
        Check::SpiceClips { min_flat_top_at_max, .. } => score_spice_clips(
            run,
            &artifacts.scope_probe,
            min_flat_top_at_max,
        ),
        Check::Subjective => (Verdict::NeedsHuman, String::from_str("needs human review")),
    };
    CriterionResult {
        id: criterion.id.clone(),
        description: criterion.description.clone(),
        verdict,
        detail,
    }
}

/// Scores `run` against `task`'s rubric, given what was read from the run's
/// artifact files.
pub fn score(task: &Task, run: &RunResult, artifacts: &Artifacts) -> (r: ScoreReport)
    ensures
        scores_task(r, *task, *run, *artifacts),
{
    let mut results: Vec<CriterionResult> = Vec::new();
    let n = task.rubric.len();
    let mut i: usize = 0;
    while i < n
        invariant
            n == task.rubric@.len(),
            i <= n,
            results@.len() == i,
            forall|j: int|
                0 <= j < i ==> scores_criterion(
                    #[trigger] results@[j],
                    task.rubric@[j],
                    *run,
                    *artifacts,
                ),
        decreases n - i,
    {
        let r = score_one(&task.rubric[i], run, artifacts);
        results.push(r);
        i = i + 1;
    }
    ScoreReport { task_id: task.id.clone(), backend: run.backend.clone(), results }
}

/// No criterion failed (a criterion that needs a human does not count).
pub open spec fn automated_pass(results: Seq<CriterionResult>) -> bool {
    forall|i: int| 0 <= i < results.len() ==> #[trigger] results[i].verdict != Verdict::Fail
}

/// The ids of the criteria that need a human, in order.
pub open spec fn human_ids(results: Seq<CriterionResult>) -> Seq<Seq<char>>
    decreases results.len(),
{
    if results.len() == 0 {
        Seq::empty()
    } else {
        let prev = human_ids(results.drop_last());
        if results.last().verdict == Verdict::NeedsHuman {
            prev.push(results.last().id@)
        } else {
            prev
        }
    }
}

impl ScoreReport {
    /// Whether every automatically scored criterion passed.
    pub fn all_automated_pass(&self) -> (r: bool)
        ensures
            r == automated_pass(self.results@),
    {
        let n = self.results.len();
        let mut i: usize = 0;
        while i < n
            invariant
                n == self.results@.len(),
                i <= n,
                forall|j: int| 0 <= j < i ==> #[trigger] self.results@[j].verdict != Verdict::Fail,
            decreases n - i,
        {
            if self.results[i].verdict == Verdict::Fail {
                return false;
            }
            i = i + 1;
        }
        true
    }

    /// The ids of the criteria that still need a human, in rubric order.
    pub fn needs_human(&self) -> (r: Vec<String>)
        ensures
            views(r@) == human_ids(self.results@),
    {
        let mut r: Vec<String> = Vec::new();
        let n = self.results.len();
        let mut i: usize = 0;
        while i < n
            invariant
                n == self.results@.len(),
                i <= n,
                views(r@) == human_ids(self.results@.take(i as int)),
            decreases n - i,
        {
            assert(self.results@.take(i + 1).drop_last() =~= self.results@.take(i as int));
            let res = &self.results[i];
            if res.verdict == Verdict::NeedsHuman {
                r.push(res.id.clone());
                assert(views(r@) =~= human_ids(self.results@.take(i as int)).push(res.id@));
            }
            i = i + 1;
        }
        assert(self.results@.take(n as int) =~= self.results@);
        r
    }
}

// ---------------------------------------------------------------------------
// laws

/// A criterion needs a human exactly when it is subjective: every automated
/// check comes out as a pass or a fail.
pub proof fn lemma_needs_human_iff_subjective(check: Check, run: RunResult, artifacts: Artifacts)
    ensures
        (check_outcome(check, run, artifacts).0 == Verdict::NeedsHuman) <==> (check is Subjective),
{
}

/// A scored report passes overall exactly when every automated criterion of
/// the rubric passed; subjective criteria never make it fail.
pub proof fn lemma_report_passes(report: ScoreReport, task: Task, run: RunResult, artifacts: Artifacts)
    requires
        scores_task(report, task, run, artifacts),
    ensures
        automated_pass(report.results@) <==> forall|i: int|
            0 <= i < task.rubric@.len() && !(task.rubric@[i].check is Subjective)
                ==> check_outcome(#[trigger] task.rubric@[i].check, run, artifacts).0 == Verdict::Pass,
{
    if automated_pass(report.results@) {
        assert forall|i: int|
            0 <= i < task.rubric@.len() && !(task.rubric@[i].check is Subjective) implies
                check_outcome(#[trigger] task.rubric@[i].check, run, artifacts).0 == Verdict::Pass by {
            assert(scores_criterion(report.results@[i], task.rubric@[i], run, artifacts));
            assert(report.results@[i].verdict != Verdict::Fail);
        }
    }
    if forall|i: int|
        0 <= i < task.rubric@.len() && !(task.rubric@[i].check is Subjective)
            ==> check_outcome(#[trigger] task.rubric@[i].check, run, artifacts).0 == Verdict::Pass {
        assert forall|i: int| 0 <= i < report.results@.len() implies #[trigger] report.results@[i].verdict != Verdict::Fail by {
            assert(scores_criterion(report.results@[i], task.rubric@[i], run, artifacts));
            if task.rubric@[i].check is Subjective {
            } else {
                assert(check_outcome(task.rubric@[i].check, run, artifacts).0 == Verdict::Pass);
            }
        }
    }
}

/// Lowering the confidence threshold never turns a passing trace into a
/// failing one.
pub proof fn lemma_min_confidence_monotone(
    captured: bool,
    trace: Result<Vec<TraceRecord>, String>,
    threshold: Quantity,
    lower: Quantity,
)
    requires
        min_confidence_outcome(captured, trace, threshold).0 == Verdict::Pass,
        ge(threshold.bits, lower.bits),
    ensures
        min_confidence_outcome(captured, trace, lower).0 == Verdict::Pass,
{
    let ds = decisions(trace->Ok_0@);
    lemma_below_items_empty(ds, threshold.bits);
    lemma_below_items_empty(ds, lower.bits);
    assert forall|i: int| 0 <= i < ds.len() implies !lt(#[trigger] ds[i].1, lower.bits) by {
        crate::quantity::lemma_order(ds[i].1, lower.bits, threshold.bits);
        assert(!lt(ds[i].1, threshold.bits));
    }
}

/// A yes/no answer is scored by the more likely of its two sides: the
/// larger of its confidence and its complement, so never by less than
/// either of them; any other decision is scored by its stated confidence.
pub proof fn lemma_decisive(c: Confidence, noul: bool)
    ensures
        noul ==> decisive(c, noul).0 == max_bits(c.value.bits, c.complement.bits),
        noul && !is_nan(c.value.bits) && !is_nan(c.complement.bits) ==> ge(
            decisive(c, noul).0,
            c.value.bits,
        ) && ge(decisive(c, noul).0, c.complement.bits),
        !noul ==> decisive(c, noul) == (c.value.bits, c.value.shown@),
{
    crate::quantity::lemma_max_bits(c.value.bits, c.complement.bits);
}

/// A finished run passes `stages_pass` only when it went through its whole
/// plan: every planned stage ran (and passed), and the spec and the
/// schematic were recorded.
pub proof fn lemma_stages_pass_means_complete(p: Pipeline)
    requires
        p.wf(),
        p.phase == Phase::Finished,
        stages_pass_outcome(p.result).0 == Verdict::Pass,
    ensures
        stage_names(p.result.stages@) == planned_stages(p.plan),
        p.result.spec_json is Some,
        p.result.schematic_py is Some,
{
    let stages = p.result.stages@;
    let planned = planned_stages(p.plan);
    lemma_failed_names_empty(stages);
    if stages.len() != planned.len() {
        assert(stages[stages.len() - 1].spec_passed());
    }
    assert(planned.take(planned.len() as int) =~= planned);
}

/// Lowering the required flat-top fraction never turns a passing scope-probe
/// report into a failing one.
pub proof fn lemma_spice_clips_monotone(
    captured: bool,
    report: Result<Option<Quantity>, String>,
    min_flat_top_at_max: Quantity,
    lower: Quantity,
)
    requires
        spice_clips_outcome(captured, report, min_flat_top_at_max).0 == Verdict::Pass,
        ge(min_flat_top_at_max.bits, lower.bits),
    ensures
        spice_clips_outcome(captured, report, lower).0 == Verdict::Pass,
{
}

/// DRC is clean exactly when the first stage called "drc" exited 0 and its
/// output contains the exact text ": 0 error(s)"; the detail is then the
/// first line of that output. So an output whose error count is nonzero,
/// such as "b: 10 error(s)", never passes.
pub proof fn lemma_drc_clean_meaning(run: RunResult)
    ensures
        (drc_outcome(run).0 == Verdict::Pass) <==> exists|i: int|
            is_first_named(run.stages@, "drc"@, i) && run.stages@[i].exit_code == Some(0i32)
                && contains(run.stages@[i].stdout@, ": 0 error(s)"@),
        drc_outcome(run).0 != Verdict::NeedsHuman,
        (!exists|i: int| 0 <= i < run.stages@.len() && run.stages@[i].stage@ == "drc"@) ==> drc_outcome(
            run,
        ).0 == Verdict::Fail,
{
    if exists|i: int| is_first_named(run.stages@, "drc"@, i) {
        let k = choose|i: int| is_first_named(run.stages@, "drc"@, i);
        assert forall|i: int| is_first_named(run.stages@, "drc"@, i) implies i == k by {
            lemma_first_named_unique(run.stages@, "drc"@, i, k);
        }
    }
}

/// A text that contains ": 0 error(s)" somewhere: the count before the
/// words is exactly the digit 0, preceded by a colon and a space.
pub proof fn lemma_zero_errors_reported(s: Seq<char>)
    requires
        contains(s, ": 0 error(s)"@),
    ensures
        exists|i: int|
            #![trigger s[i]]
            0 <= i && i + 4 <= s.len() && s[i] == ':' && s[i + 1] == ' ' && s[i + 2] == '0' && s[i
                + 3] == ' ',
{
    reveal_strlit(": 0 error(s)");
    let i = choose|i: int| occurs_at(s, ": 0 error(s)"@, i);
    assert(s.subrange(i, i + 12)[0] == ':');
    assert(s.subrange(i, i + 12)[1] == ' ');
    assert(s.subrange(i, i + 12)[2] == '0');
    assert(s.subrange(i, i + 12)[3] == ' ');
}

/// Whether a trace record is a yes/no answer: its kind is the text "noul".
pub open spec fn kind_is_yes_no(r: TraceRecord) -> bool {
    r.kind is Some && r.kind.unwrap()@ == "noul"@
}

/// The confidence a trace record is scored by, for a record with a key and
/// a confidence: a yes/no answer is as sure as its more likely side, the
/// larger of the confidence and its complement; any other kind of decision
/// is as sure as its stated confidence.
pub proof fn lemma_record_scoring(r: TraceRecord)
    ensures
        r.key is None || r.confidence is None ==> decision_of(r) is None,
        ({
            let d = decision_of(r).unwrap();
            let c = r.confidence.unwrap();
            &&& r.key is Some && r.confidence is Some ==> decision_of(r) is Some && d.0
                == r.key.unwrap()@
            &&& r.key is Some && r.confidence is Some && !kind_is_yes_no(r) ==> d.1 == c.value.bits
                && d.2 == c.value.shown@
            &&& r.key is Some && r.confidence is Some && kind_is_yes_no(r) ==> d.1 == max_bits(
                c.value.bits,
                c.complement.bits,
            )
        }),
{
}

/// The confidence a record with a key and a confidence is scored by, as
/// stated by [`lemma_record_scoring`].
pub open spec fn scored_bits(r: TraceRecord) -> u64 {
    let c = r.confidence.unwrap();
    if kind_is_yes_no(r) {
        max_bits(c.value.bits, c.complement.bits)
    } else {
        c.value.bits
    }
}

/// A record that stands for a decision: it has a key and a confidence.
pub open spec fn is_decision(r: TraceRecord) -> bool {
    r.key is Some && r.confidence is Some
}

proof fn lemma_decisions_cover(records: Seq<TraceRecord>, threshold: u64)
    ensures
        decisions(records).len() == 0 <==> forall|i: int|
            0 <= i < records.len() ==> !is_decision(#[trigger] records[i]),
        (forall|j: int|
            0 <= j < decisions(records).len() ==> !lt(#[trigger] decisions(records)[j].1, threshold))
            <==> (forall|i: int|
            0 <= i < records.len() && is_decision(#[trigger] records[i]) ==> !lt(
                scored_bits(records[i]),
                threshold,
            )),
    decreases records.len(),
{
    if records.len() > 0 {
        let front = records.drop_last();
        let last = records.last();
        lemma_decisions_cover(front, threshold);
        lemma_record_scoring(last);
        let prev = decisions(front);
        assert forall|i: int| 0 <= i < front.len() implies front[i] == records[i] by {}
        if is_decision(last) {
            let d = decision_of(last).unwrap();
            assert(decisions(records) == prev.push(d));
            assert(d.1 == scored_bits(last));
            if forall|j: int|
                0 <= j < decisions(records).len() ==> !lt(#[trigger] decisions(records)[j].1, threshold) {
                assert forall|j: int| 0 <= j < prev.len() implies !lt(#[trigger] prev[j].1, threshold) by {
                    assert(decisions(records)[j] == prev[j]);
                }
                assert(decisions(records)[prev.len() as int] == d);
            }
            if forall|i: int|
                0 <= i < records.len() && is_decision(#[trigger] records[i]) ==> !lt(
                    scored_bits(records[i]),
                    threshold,
                ) {
                assert(records[records.len() - 1] == last);
                assert forall|j: int| 0 <= j < decisions(records).len() implies !lt(
                    #[trigger] decisions(records)[j].1,
                    threshold,
                ) by {
                    if j < prev.len() {
                        assert(decisions(records)[j] == prev[j]);
                    }
                }
            }
        } else {
            assert(decisions(records) == prev);
        }
    }
}

/// `min_decision_confidence` passes exactly when the run captured a trace
/// that could be read, that trace holds at least one decision (a record
/// with a key and a confidence), and no decision is scored below the
/// threshold, where a yes/no ("noul") answer is scored by the larger of its
/// confidence and its complement and any other kind by its stated
/// confidence.
pub proof fn lemma_min_confidence_meaning(
    captured: bool,
    trace: Result<Vec<TraceRecord>, String>,
    threshold: Quantity,
)
    ensures
        (min_confidence_outcome(captured, trace, threshold).0 == Verdict::Pass) <==> (captured
            && trace is Ok && (exists|i: int|
            0 <= i < trace->Ok_0@.len() && is_decision(#[trigger] trace->Ok_0@[i]))
            && forall|i: int|
            0 <= i < trace->Ok_0@.len() && is_decision(#[trigger] trace->Ok_0@[i]) ==> !lt(
                scored_bits(trace->Ok_0@[i]),
                threshold.bits,
            )),
        min_confidence_outcome(captured, trace, threshold).0 != Verdict::NeedsHuman,
{
    if trace is Ok {
        let records = trace->Ok_0@;
        lemma_decisions_cover(records, threshold.bits);
        lemma_below_items_empty(decisions(records), threshold.bits);
    }
}

/// `spice_clips` passes exactly when the run captured a scope-probe report,
/// the report has a `flat_top_at_max` number, and that number is at least
/// the required fraction; nothing else about the run matters.
pub proof fn lemma_spice_clips_meaning(check: Check, run: RunResult, artifacts: Artifacts)
    requires
        check is SpiceClips,
    ensures
        (check_outcome(check, run, artifacts).0 == Verdict::Pass) <==> (run.scope_probe_json is Some
            && artifacts.scope_probe is Ok && artifacts.scope_probe->Ok_0 is Some && ge(
            artifacts.scope_probe->Ok_0->0.bits,
            check->min_flat_top_at_max.bits,
        )),
{
}

/// Each check reads only its own part of the run: stages_pass and drc_clean
/// read the stages, min_decision_confidence whether a trace was captured and
/// what it held, spice_clips whether a scope-probe report was captured and
/// what it held. Two runs that agree on that part get the same outcome.
pub proof fn lemma_checks_read_only_their_artifacts(
    check: Check,
    run1: RunResult,
    run2: RunResult,
    artifacts1: Artifacts,
    artifacts2: Artifacts,
)
    ensures
        (check is StagesPass || check is DrcClean) && run1.stages@ == run2.stages@ ==> check_outcome(
            check,
            run1,
            artifacts1,
        ) == check_outcome(check, run2, artifacts2),
        check is MinDecisionConfidence && (run1.decision_trace is Some <==> run2.decision_trace is Some)
            && artifacts1.trace == artifacts2.trace ==> check_outcome(check, run1, artifacts1)
            == check_outcome(check, run2, artifacts2),
        check is SpiceClips && (run1.scope_probe_json is Some <==> run2.scope_probe_json is Some)
            && artifacts1.scope_probe == artifacts2.scope_probe ==> check_outcome(
            check,
            run1,
            artifacts1,
        ) == check_outcome(check, run2, artifacts2),
        check is Subjective ==> check_outcome(check, run1, artifacts1) == check_outcome(
            check,
            run2,
            artifacts2,
        ),
{
}

} // verus!
