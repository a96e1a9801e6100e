//! The text a run prints: a banner, one line per stage (with the last line
//! of a failed stage's error output), and the score report.

use vstd::prelude::*;

use crate::runner::{RunResult, StageRun};
use crate::scorer::{human_ids, CriterionResult, ScoreReport, Verdict};
use crate::task::Task;
use crate::text::{
    contains, join, joined, last_line, last_line_of, lemma_contains_after_prefix,
    lemma_joined_contains, views,
};

verus! {

/// The banner printed before a run: `pcbbench run: <id> (<family>)`.
pub fn banner(task: &Task) -> (r: String)
    ensures
        r@ == "pcbbench run: "@ + task.id@ + " ("@ + task.family@ + ")"@,
{
    let mut r = String::from_str("pcbbench run: ");
    r.append(task.id.as_str());
    r.append(" (");
    r.append(task.family.as_str());
    r.append(")");
    r
}

/// The lines printed for one stage: its name and "ok" or "FAILED", and for
/// a failed stage the last line of its error output, when it has one.
pub open spec fn stage_lines(s: StageRun) -> Seq<Seq<char>> {
    let head = "  ["@ + s.stage@ + "] "@ + (if s.spec_passed() { "ok"@ } else { "FAILED"@ });
    if !s.spec_passed() && last_line(s.stderr@) is Some {
        seq![head, "    "@ + last_line(s.stderr@)->0]
    } else {
        seq![head]
    }
}

/// The lines printed for the stages of a run, in order.
pub open spec fn stages_lines(stages: Seq<StageRun>) -> Seq<Seq<char>>
    decreases stages.len(),
{
    if stages.len() == 0 {
        Seq::empty()
    } else {
        stages_lines(stages.drop_last()) + stage_lines(stages.last())
    }
}

/// The lines printed for the stages of `run`.
pub fn stage_report(run: &RunResult) -> (r: Vec<String>)
    ensures
        views(r@) == stages_lines(run.stages@),
{
    let mut r: Vec<String> = Vec::new();
    let n = run.stages.len();
    let mut i: usize = 0;
    while i < n
        invariant
            n == run.stages@.len(),
            i <= n,
            views(r@) == stages_lines(run.stages@.take(i as int)),
        decreases n - i,
    {
        assert(run.stages@.take(i + 1).drop_last() =~= run.stages@.take(i as int));
        let s = &run.stages[i];
        let ghost before = views(r@);
        let ok = s.passed();
        let mut head = String::from_str("  [");
        head.append(s.stage.as_str());
        head.append("] ");
        head.append(if ok { "ok" } else { "FAILED" });
        r.push(head);
        if !ok {
            match last_line_of(s.stderr.as_str()) {
                Some(l) => {
                    let mut line = String::from_str("    ");
                    line.append(l.as_str());
                    r.push(line);
                },
                None => {},
            }
        }
        assert(views(r@) =~= before + stage_lines(*s));
        i = i + 1;
    }
    assert(run.stages@.take(n as int) =~= run.stages@);
    r
}

/// The mark a verdict is printed with.
pub open spec fn mark(v: Verdict) -> Seq<char> {
    match v {
        Verdict::Pass => "PASS"@,
        Verdict::Fail => "FAIL"@,
        Verdict::NeedsHuman => "?   "@,
    }
}

/// The line printed for one scored criterion.
pub open spec fn result_line(c: CriterionResult) -> Seq<char> {
    "  ["@ + mark(c.verdict) + "] "@ + c.description@ + " -- "@ + c.detail@
}

/// The lines printed for a score report: a blank line, a heading, one line
/// per criterion, and, when some criteria need a human, a blank line and a
/// note naming them.
pub open spec fn report_lines(report: ScoreReport) -> Seq<Seq<char>> {
    let results = report.results@;
    let head = seq![Seq::<char>::empty(), "Score report for "@ + report.task_id@ + ":"@];
    let body = results.map_values(|c: CriterionResult| result_line(c));
    let human = human_ids(results);
    if human.len() == 0 {
        head + body
    } else {
        head + body + seq![
            Seq::<char>::empty(),
            "note: criteria still need a human: "@ + joined(human, ", "@),
        ]
    }
}

/// The lines printed for `report`.
pub fn report_text(report: &ScoreReport) -> (r: Vec<String>)
    ensures
        views(r@) == report_lines(*report),
{
    let mut r: Vec<String> = Vec::new();
    r.push(String::new());
    let mut head = String::from_str("Score report for ");
    head.append(report.task_id.as_str());
    head.append(":");
    r.push(head);
    let ghost start = views(r@);
    let n = report.results.len();
    let mut i: usize = 0;
    while i < n
        invariant
            n == report.results@.len(),
            i <= n,
            views(r@) == start + report.results@.take(i as int).map_values(
                |c: CriterionResult| result_line(c),
            ),
        decreases n - i,
    {
        let c = &report.results[i];
        let mut line = String::from_str("  [");
        line.append(
            match c.verdict {
                Verdict::Pass => "PASS",
                Verdict::Fail => "FAIL",
                Verdict::NeedsHuman => "?   ",
            },
        );
        line.append("] ");
        line.append(c.description.as_str());
        line.append(" -- ");
        line.append(c.detail.as_str());
        let ghost before = views(r@);
        r.push(line);
        assert(report.results@.take(i + 1).map_values(|c: CriterionResult| result_line(c))
            =~= report.results@.take(i as int).map_values(|c: CriterionResult| result_line(c)).push(
            result_line(*c),
        ));
        assert(views(r@) =~= before.push(result_line(*c)));
        i = i + 1;
    }
    assert(report.results@.take(n as int) =~= report.results@);
    let human = report.needs_human();
    if human.len() > 0 {
        let ghost before = views(r@);
        r.push(String::new());
        let mut note = String::from_str("note: criteria still need a human: ");
        note.append(join(&human, ", ").as_str());
        r.push(note);
        assert(views(r@) =~= before + seq![
            Seq::<char>::empty(),
            "note: criteria still need a human: "@ + joined(human_ids(report.results@), ", "@),
        ]);
    }
    assert(views(r@) =~= report_lines(*report));
    r
}

/// Every criterion that needs a human has its id among `human_ids`.
pub proof fn lemma_human_ids_complete(results: Seq<CriterionResult>, i: int)
    requires
        0 <= i < results.len(),
        results[i].verdict == Verdict::NeedsHuman,
    ensures
        exists|j: int| 0 <= j < human_ids(results).len() && human_ids(results)[j] == results[i].id@,
    decreases results.len(),
{
    let prev = human_ids(results.drop_last());
    if i == results.len() - 1 {
        assert(human_ids(results) == prev.push(results[i].id@));
        assert(human_ids(results)[prev.len() as int] == results[i].id@);
    } else {
        assert(results.drop_last()[i] == results[i]);
        lemma_human_ids_complete(results.drop_last(), i);
        let j = choose|j: int| 0 <= j < prev.len() && prev[j] == results[i].id@;
        if results.last().verdict == Verdict::NeedsHuman {
            assert(human_ids(results) == prev.push(results.last().id@));
            assert(human_ids(results)[j] == prev[j]);
        } else {
            assert(human_ids(results) == prev);
        }
        assert(0 <= j < human_ids(results).len() && human_ids(results)[j] == results[i].id@);
    }
}

/// The printed report ends with a note exactly when some criterion needs a
/// human, and that note names every criterion that needs a human: it starts
/// with "note: criteria still need a human: " and each such id occurs in it.
pub proof fn lemma_note_names_every_human_criterion(report: ScoreReport)
    ensures
        ({
            let results = report.results@;
            let lines = report_lines(report);
            let prefix = "note: criteria still need a human: "@;
            &&& (exists|i: int| 0 <= i < results.len() && results[i].verdict == Verdict::NeedsHuman)
                <==> lines.len() == results.len() + 4
            &&& lines.len() == results.len() + 4 ==> lines.last().take(prefix.len() as int)
                == prefix
            &&& forall|i: int|
                0 <= i < results.len() && #[trigger] results[i].verdict == Verdict::NeedsHuman
                    ==> contains(lines.last(), results[i].id@)
        }),
{
    let results = report.results@;
    let human = human_ids(results);
    let prefix = "note: criteria still need a human: "@;
    if exists|i: int| 0 <= i < results.len() && results[i].verdict == Verdict::NeedsHuman {
        let i = choose|i: int| 0 <= i < results.len() && results[i].verdict == Verdict::NeedsHuman;
        lemma_human_ids_complete(results, i);
    } else {
        if human.len() > 0 {
            lemma_human_ids_sound(results, 0);
        }
    }
    if human.len() > 0 {
        let note = prefix + joined(human, ", "@);
        assert(report_lines(report).last() == note);
        assert(note.take(prefix.len() as int) =~= prefix);
        assert forall|i: int|
            0 <= i < results.len() && #[trigger] results[i].verdict == Verdict::NeedsHuman
                implies contains(report_lines(report).last(), results[i].id@) by {
            lemma_human_ids_complete(results, i);
            let j = choose|j: int| 0 <= j < human.len() && human[j] == results[i].id@;
            lemma_joined_contains(human, ", "@, j);
            lemma_contains_after_prefix(prefix, joined(human, ", "@), human[j]);
        }
    }
}

/// Every id among `human_ids` belongs to a criterion that needs a human.
pub proof fn lemma_human_ids_sound(results: Seq<CriterionResult>, j: int)
    requires
        0 <= j < human_ids(results).len(),
    ensures
        exists|i: int|
            0 <= i < results.len() && results[i].verdict == Verdict::NeedsHuman && results[i].id@
                == human_ids(results)[j],
    decreases results.len(),
{
    let prev = human_ids(results.drop_last());
    if j < prev.len() {
        assert(human_ids(results)[j] == prev[j]);
        lemma_human_ids_sound(results.drop_last(), j);
        let i = choose|i: int|
            0 <= i < results.drop_last().len() && results.drop_last()[i].verdict == Verdict::NeedsHuman
                && results.drop_last()[i].id@ == prev[j];
        assert(results.drop_last()[i] == results[i]);
    } else {
        assert(results[results.len() - 1].verdict == Verdict::NeedsHuman);
    }
}

} // verus!
