//! Stage results and the backend pipeline.

use vstd::prelude::*;

use crate::task::{Check, Task};
use crate::text::{decimal, decimal_string};

verus! {

/// One subprocess run's outcome: exit status and captured output, kept for
/// the scorer and for a human to inspect after the fact.
#[derive(Debug, Clone)]
pub struct StageRun {
    pub stage: String,
    pub command: String,
    pub exit_code: Option<i32>,
    pub stdout: String,
    pub stderr: String,
}

impl StageRun {
    /// A stage passed exactly when its process exited with status 0.
    pub open spec fn spec_passed(&self) -> bool {
        self.exit_code == Some(0i32)
    }

    /// Whether the stage's process exited with status 0 (a process killed by
    /// a signal has no exit code and did not pass).
    pub fn passed(&self) -> (r: bool)
        ensures
            r == self.spec_passed(),
    {
        match self.exit_code {
            Some(code) => code == 0,
            None => false,
        }
    }
}

/// Every artifact and stage result produced by one eval run. Stages after
/// the first failing step of the pipeline are absent (not run) rather than
/// recorded as skipped: a [`StageRun`] exists only for a stage that was
/// actually attempted. Paths are kept as text.
#[derive(Debug, Clone)]
pub struct RunResult {
    pub backend: String,
    pub stages: Vec<StageRun>,
    pub spec_json: Option<String>,
    pub schematic_py: Option<String>,
    pub decision_trace: Option<String>,
    pub scope_probe_json: Option<String>,
}

impl RunResult {
    /// A run with no backend name, no stages and no artifacts.
    pub open spec fn is_empty_run(&self) -> bool {
        &&& self.backend@ == Seq::<char>::empty()
        &&& self.stages@.len() == 0
        &&& self.spec_json is None
        &&& self.schematic_py is None
        &&& self.decision_trace is None
        &&& self.scope_probe_json is None
    }
}

impl Default for RunResult {
    fn default() -> (r: RunResult)
        ensures
            r.is_empty_run(),
    {
        RunResult {
            backend: String::new(),
            stages: Vec::new(),
            spec_json: None,
            schematic_py: None,
            decision_trace: None,
            scope_probe_json: None,
        }
    }
}

/// The path that `std::path::Path::join` gives for `base` joined with the
/// relative path `name`.
pub uninterp spec fn joined_path(base: Seq<char>, name: Seq<char>) -> Seq<char>;

/// `std::path::Path::join`: `base` joined with `name`. Its result is named
/// by `joined_path`; nothing more is stated of it.
#[verifier::external_body]
fn path_join(base: &String, name: &str) -> (r: String)
    ensures
        r@ == joined_path(base@, name@),
{
    std::path::Path::new(base.as_str()).join(name).to_string_lossy().into_owned()
}

/// The sweep a task's `spice_clips` criterion asks the scope probe for. The
/// real-valued parameters are bit patterns of binary64 numbers.
#[derive(Debug, Clone)]
pub struct ProbeSettings {
    pub input_net_hint: Option<String>,
    pub freq_hz: Option<u64>,
    pub min_amplitude_v: Option<u64>,
    pub max_amplitude_v: Option<u64>,
    pub steps: Option<u32>,
}

/// What one run needs to know, fixed when it starts: the backend's name,
/// the task's family and brief, an existing spec to start from (if any),
/// the scope-probe sweep (if the rubric asks for one), and the paths of the
/// artifacts under the working directory.
///
/// The board stage places and routes the schematic into `board_pcb`, and
/// the drc stage checks that board; the drc stage's output is what
/// `drc_clean` reads. These two command lines are assumed, not taken from a
/// published interface of the backend: the board stage is handed the spec
/// itself (whose enclosure-size decision sizes the panel) rather than a
/// panel file derived here, because neither the spec's layout nor the
/// panel file's format is available to this library.
#[derive(Debug, Clone)]
pub struct Plan {
    pub backend: String,
    pub family: String,
    pub brief: String,
    pub work_dir: String,
    pub existing_spec: Option<String>,
    pub probe: Option<ProbeSettings>,
    pub spec_json: String,
    pub trace_json: String,
    pub design_stem: String,
    pub schematic_py: String,
    pub probe_report: String,
    pub board_pcb: String,
}

/// One argument of a backend invocation: text, or a real number given by
/// its binary64 bit pattern (written out in its shortest decimal form).
#[derive(Debug, Clone)]
pub enum Arg {
    Text(String),
    Number(u64),
}

/// An argument as a value.
pub enum ArgView {
    Text(Seq<char>),
    Number(u64),
}

pub open spec fn arg_view(a: Arg) -> ArgView {
    match a {
        Arg::Text(t) => ArgView::Text(t@),
        Arg::Number(b) => ArgView::Number(b),
    }
}

pub open spec fn args_view(args: Seq<Arg>) -> Seq<ArgView> {
    args.map_values(|a: Arg| arg_view(a))
}

/// What the caller is asked to do next.
#[derive(Debug)]
pub enum Step {
    /// Create the working directory and its parents.
    PrepareWorkDir { dir: String },
    /// Copy an already-written spec into place.
    CopySpec { from: String, to: String },
    /// Run the backend with these arguments and report how it exited.
    Invoke { stage: String, args: Vec<Arg> },
    /// Report whether a file exists.
    Probe { path: String },
    /// The run is over.
    Finish,
}

/// How one backend invocation ended, as captured by the caller.
#[derive(Debug, Clone)]
pub struct StageOutput {
    pub command: String,
    pub exit_code: Option<i32>,
    pub stdout: String,
    pub stderr: String,
}

/// The answer to the last step.
#[derive(Debug)]
pub enum Event {
    /// The directory was created, or the spec copied.
    Done,
    /// The invocation ended.
    Exited(StageOutput),
    /// Whether the file exists.
    Found(bool),
}

/// Where the run stands: which step's answer it is waiting for.
#[derive(Debug, Clone, Copy, PartialEq, Eq, Structural)]
pub enum Phase {
    Preparing,
    CopyingSpec,
    RunningSpec,
    CheckingTrace,
    RunningSchematic,
    RunningProbe,
    CheckingProbeReport,
    RunningRun,
    RunningBoard,
    RunningDrc,
    Finished,
}

/// The backend pipeline of one run: concept, then spec, then design
/// (spec, schematic, run, board, drc; with the scope probe after the
/// schematic when the rubric asks for it). Today's backend is
/// legion-of-bom's `lob` CLI. The caller performs each step it is
/// given and hands back the answer; the pipeline decides what comes next and
/// collects the [`RunResult`].
#[derive(Debug)]
pub struct Pipeline {
    pub plan: Plan,
    pub phase: Phase,
    pub result: RunResult,
}

// ---------------------------------------------------------------------------
// names and argument lists

pub open spec fn text(s: Seq<char>) -> ArgView {
    ArgView::Text(s)
}

/// The stages a plan runs, in order, when every stage passes.
pub open spec fn planned_stages(plan: Plan) -> Seq<Seq<char>> {
    (if plan.existing_spec is None { seq!["spec"@] } else { Seq::empty() }) + seq!["schematic"@]
        + (if plan.probe is Some { seq!["scope-probe"@] } else { Seq::empty() }) + seq![
        "run"@,
        "board"@,
        "drc"@,
    ]
}

/// How many stages come before the schematic stage.
pub open spec fn spec_stages(plan: Plan) -> int {
    if plan.existing_spec is None { 1 } else { 0 }
}

pub open spec fn spec_args(plan: Plan) -> Seq<ArgView> {
    seq![
        text("spec"@),
        text(plan.family@),
        text("--brief"@),
        text(plan.brief@),
        text("--out"@),
        text(plan.design_stem@),
        text("--trace"@),
        text(plan.trace_json@),
    ]
}

pub open spec fn schematic_args(plan: Plan) -> Seq<ArgView> {
    seq![text("schematic"@), text(plan.spec_json@), text("--out"@), text(plan.schematic_py@)]
}

pub open spec fn run_args(plan: Plan) -> Seq<ArgView> {
    seq![text("run"@), text(plan.schematic_py@)]
}

pub open spec fn board_args(plan: Plan) -> Seq<ArgView> {
    seq![
        text("board"@),
        text(plan.schematic_py@),
        text("--spec"@),
        text(plan.spec_json@),
        text("--out"@),
        text(plan.board_pcb@),
    ]
}

pub open spec fn drc_args(plan: Plan) -> Seq<ArgView> {
    seq![text("drc"@), text(plan.board_pcb@)]
}

pub open spec fn flag_text(flag: Seq<char>, value: Option<String>) -> Seq<ArgView> {
    match value {
        Some(v) => seq![text(flag), text(v@)],
        None => Seq::empty(),
    }
}

pub open spec fn flag_number(flag: Seq<char>, value: Option<u64>) -> Seq<ArgView> {
    match value {
        Some(v) => seq![text(flag), ArgView::Number(v)],
        None => Seq::empty(),
    }
}

pub open spec fn flag_count(flag: Seq<char>, value: Option<u32>) -> Seq<ArgView> {
    match value {
        Some(v) => seq![text(flag), text(decimal(v as nat))],
        None => Seq::empty(),
    }
}

/// The scope-probe invocation. It follows the backend's documented
/// contract (`scope-probe <schematic> [--input-net-hint NAME]
/// --min-amplitude V --max-amplitude V --out <report>`), with two changes
/// that the rubric's optional sweep parameters call for: each parameter the
/// criterion leaves out is left out of the command (the probe then uses its
/// own default), and the frequency and the number of steps, which that
/// contract does not list, are passed as `--freq` and `--steps`, flag names
/// assumed here.
pub open spec fn probe_args(plan: Plan, p: ProbeSettings) -> Seq<ArgView> {
    seq![text("scope-probe"@), text(plan.schematic_py@)]
        + flag_text("--input-net-hint"@, p.input_net_hint)
        + flag_number("--freq"@, p.freq_hz)
        + flag_number("--min-amplitude"@, p.min_amplitude_v)
        + flag_number("--max-amplitude"@, p.max_amplitude_v)
        + flag_count("--steps"@, p.steps)
        + seq![text("--out"@), text(plan.probe_report@)]
}

/// `step` asks for running the stage `name` with `args`.
pub open spec fn invokes(step: Step, name: Seq<char>, args: Seq<ArgView>) -> bool {
    step matches Step::Invoke { stage, args: a } && stage@ == name && args_view(a@) == args
}

/// `stage` records running `name` with the outcome `out`.
pub open spec fn records(stage: StageRun, name: Seq<char>, out: StageOutput) -> bool {
    &&& stage.stage@ == name
    &&& stage.command == out.command
    &&& stage.exit_code == out.exit_code
    &&& stage.stdout == out.stdout
    &&& stage.stderr == out.stderr
}

pub open spec fn stage_names(stages: Seq<StageRun>) -> Seq<Seq<char>> {
    stages.map_values(|s: StageRun| s.stage@)
}

/// Every stage before position `upto` passed, or is the scope probe (whose
/// failure does not stop the pipeline).
pub open spec fn settled(stages: Seq<StageRun>, upto: int) -> bool {
    forall|i: int|
        0 <= i < upto ==> #[trigger] stages[i].spec_passed() || stages[i].stage@ == "scope-probe"@
}

/// The first spice_clips criterion's sweep, if the rubric has one. The scope
/// probe runs once per run, with this sweep; a later spice_clips criterion
/// is scored against the same report.
pub open spec fn probe_of(rubric: Seq<crate::task::Criterion>) -> Option<ProbeSettings>
    decreases rubric.len(),
{
    if rubric.len() == 0 {
        None
    } else {
        match rubric[0].check {
            Check::SpiceClips { input_net_hint, freq_hz, min_amplitude_v, max_amplitude_v, steps, .. } =>
                Some(ProbeSettings {
                    input_net_hint,
                    freq_hz: bits_of(freq_hz),
                    min_amplitude_v: bits_of(min_amplitude_v),
                    max_amplitude_v: bits_of(max_amplitude_v),
                    steps,
                }),
            _ => probe_of(rubric.drop_first()),
        }
    }
}

pub open spec fn bits_of(q: Option<crate::quantity::Quantity>) -> Option<u64> {
    match q {
        Some(q) => Some(q.bits),
        None => None,
    }
}

// ---------------------------------------------------------------------------
// the invariant

impl Pipeline {
    /// The artifacts recorded so far were each produced by a step that
    /// succeeded, at the plan's paths.
    pub open spec fn artifacts_sound(&self) -> bool {
        let plan = self.plan;
        let r = self.result;
        let stages = r.stages@;
        let k = spec_stages(plan);
        &&& r.backend == plan.backend
        &&& r.spec_json is Some ==> r.spec_json == Some(plan.spec_json) && (plan.existing_spec is Some
            || (stages.len() >= 1 && stages[0].spec_passed()))
        &&& r.decision_trace is Some ==> r.decision_trace == Some(plan.trace_json)
            && r.spec_json is Some
        &&& r.schematic_py is Some ==> r.schematic_py == Some(plan.schematic_py) && stages.len()
            >= k + 1 && stages[k].spec_passed()
        &&& r.scope_probe_json is Some ==> r.scope_probe_json == Some(plan.probe_report)
            && plan.probe is Some && stages.len() >= k + 2 && stages[k + 1].spec_passed()
    }

    /// How far the run has come matches what it has recorded.
    pub open spec fn wf(&self) -> bool {
        let plan = self.plan;
        let r = self.result;
        let stages = r.stages@;
        let n = stages.len() as int;
        let k = spec_stages(plan);
        let planned = planned_stages(plan);
        &&& self.artifacts_sound()
        &&& n <= planned.len()
        &&& stage_names(stages) == planned.take(n)
        &&& match self.phase {
            Phase::Preparing => n == 0 && r.spec_json is None
                && r.decision_trace is None,
            Phase::CopyingSpec => n == 0 && plan.existing_spec is Some && r.spec_json is None
                && r.decision_trace is None,
            Phase::RunningSpec => n == 0 && plan.existing_spec is None && r.spec_json is None
                && r.decision_trace is None,
            Phase::CheckingTrace => n == k && settled(stages, n) && r.spec_json is Some
                && r.decision_trace is None && r.schematic_py is None,
            Phase::RunningSchematic => n == k && settled(stages, n) && r.spec_json is Some
                && r.schematic_py is None,
            Phase::RunningProbe => n == k + 1 && settled(stages, n) && plan.probe is Some
                && r.spec_json is Some && r.schematic_py is Some && r.scope_probe_json is None,
            Phase::CheckingProbeReport => n == k + 2 && settled(stages, n) && plan.probe is Some
                && r.spec_json is Some && r.schematic_py is Some && stages[n - 1].spec_passed()
                && r.scope_probe_json is None,
            Phase::RunningRun => n == planned.len() - 3 && settled(stages, n)
                && r.spec_json is Some && r.schematic_py is Some,
            Phase::RunningBoard => n == planned.len() - 2 && settled(stages, n)
                && stages[n - 1].spec_passed() && r.spec_json is Some && r.schematic_py is Some,
            Phase::RunningDrc => n == planned.len() - 1 && settled(stages, n)
                && stages[n - 1].spec_passed() && r.spec_json is Some && r.schematic_py is Some,
            Phase::Finished => settled(stages, n - 1) && (n == planned.len() || (n > 0
                && !stages[n - 1].spec_passed() && stages[n - 1].stage@ != "scope-probe"@)) && (n
                == planned.len() ==> r.spec_json is Some && r.schematic_py is Some) && (
            plan.existing_spec is Some ==> r.spec_json is Some) && (r.spec_json is Some <==> (
            plan.existing_spec is Some || (n >= 1 && stages[0].spec_passed()))) && (
            r.schematic_py is Some <==> (n >= k + 1 && stages[k].spec_passed())),
        }
    }

    /// The answer `event` fits the step the run is waiting on.
    pub open spec fn fits(&self, event: Event) -> bool {
        match self.phase {
            Phase::Preparing | Phase::CopyingSpec => event is Done,
            Phase::RunningSpec | Phase::RunningSchematic | Phase::RunningProbe | Phase::RunningRun
            | Phase::RunningBoard | Phase::RunningDrc =>
                event is Exited,
            Phase::CheckingTrace | Phase::CheckingProbeReport => event is Found,
            Phase::Finished => false,
        }
    }

    /// Whether `event` answers the step the run is waiting on.
    pub fn accepts(&self, event: &Event) -> (r: bool)
        ensures
            r == self.fits(*event),
    {
        match self.phase {
            Phase::Preparing | Phase::CopyingSpec => matches!(event, Event::Done),
            Phase::RunningSpec | Phase::RunningSchematic | Phase::RunningProbe | Phase::RunningRun
            | Phase::RunningBoard | Phase::RunningDrc =>
                matches!(event, Event::Exited(_)),
            Phase::CheckingTrace | Phase::CheckingProbeReport => matches!(event, Event::Found(_)),
            Phase::Finished => false,
        }
    }
}

// ---------------------------------------------------------------------------
// the transitions

/// Whether an invocation exited with status 0.
pub open spec fn exited_ok(out: StageOutput) -> bool {
    out.exit_code == Some(0i32)
}

/// The artifact paths a result records.
pub open spec fn artifacts(r: RunResult) -> (Option<String>, Option<String>, Option<String>, Option<String>) {
    (r.spec_json, r.decision_trace, r.schematic_py, r.scope_probe_json)
}

/// `after` is `before` with no stage added.
pub open spec fn same_stages(before: RunResult, after: RunResult) -> bool {
    after.backend == before.backend && after.stages@ == before.stages@
}

/// `after` is `before` with the stage `name` recorded as ending with `out`.
pub open spec fn adds_stage(before: RunResult, after: RunResult, name: Seq<char>, out: StageOutput) -> bool {
    &&& after.backend == before.backend
    &&& after.stages@.len() == before.stages@.len() + 1
    &&& after.stages@.drop_last() == before.stages@
    &&& records(after.stages@.last(), name, out)
}

/// `step` asks whether `path` exists.
pub open spec fn probes(step: Step, path: String) -> bool {
    step matches Step::Probe { path: p } && p == path
}

/// The step the run takes after the schematic stage passed: the scope probe
/// when the rubric asks for one, else the run stage.
pub open spec fn after_schematic(plan: Plan, phase: Phase, step: Step) -> bool {
    match plan.probe {
        Some(p) => phase == Phase::RunningProbe && invokes(step, "scope-probe"@, probe_args(plan, p)),
        None => phase == Phase::RunningRun && invokes(step, "run"@, run_args(plan)),
    }
}

/// `step` asks for copying `from` to `to`.
pub open spec fn copies(step: Step, from: String, to: String) -> bool {
    step matches Step::CopySpec { from: f, to: t } && f == from && t == to
}

/// The outcome an event reports, if it reports an invocation's end.
pub open spec fn exit_of(event: Event) -> Option<StageOutput> {
    match event {
        Event::Exited(out) => Some(out),
        _ => None,
    }
}

/// The answer an event gives, if it answers an existence question.
pub open spec fn found_of(event: Event) -> Option<bool> {
    match event {
        Event::Found(b) => Some(b),
        _ => None,
    }
}

/// How the run moves on when `event` answers its step: which step comes
/// next, and what it records.
pub open spec fn moves(before: Pipeline, event: Event, after: Pipeline, step: Step) -> bool {
    let plan = before.plan;
    let r0 = before.result;
    let r1 = after.result;
    let a0 = artifacts(r0);
    let out = exit_of(event)->0;
    let found = found_of(event)->0;
    match before.phase {
        Phase::Preparing => {
            &&& same_stages(r0, r1)
            &&& artifacts(r1) == a0
            &&& match plan.existing_spec {
                Some(from) => after.phase == Phase::CopyingSpec && copies(step, from, plan.spec_json),
                None => after.phase == Phase::RunningSpec && invokes(step, "spec"@, spec_args(plan)),
            }
        },
        Phase::CopyingSpec => {
            &&& same_stages(r0, r1)
            &&& artifacts(r1) == (Some(plan.spec_json), a0.1, a0.2, a0.3)
            &&& after.phase == Phase::CheckingTrace
            &&& probes(step, plan.trace_json)
        },
        Phase::RunningSpec => {
            &&& adds_stage(r0, r1, "spec"@, out)
            &&& if exited_ok(out) {
                &&& artifacts(r1) == (Some(plan.spec_json), a0.1, a0.2, a0.3)
                &&& after.phase == Phase::CheckingTrace
                &&& probes(step, plan.trace_json)
            } else {
                &&& artifacts(r1) == a0
                &&& after.phase == Phase::Finished
                &&& step is Finish
            }
        },
        Phase::CheckingTrace => {
            &&& same_stages(r0, r1)
            &&& artifacts(r1) == (a0.0, if found { Some(plan.trace_json) } else { a0.1 }, a0.2, a0.3)
            &&& after.phase == Phase::RunningSchematic
            &&& invokes(step, "schematic"@, schematic_args(plan))
        },
        Phase::RunningSchematic => {
            &&& adds_stage(r0, r1, "schematic"@, out)
            &&& if exited_ok(out) {
                &&& artifacts(r1) == (a0.0, a0.1, Some(plan.schematic_py), a0.3)
                &&& after_schematic(plan, after.phase, step)
            } else {
                &&& artifacts(r1) == a0
                &&& after.phase == Phase::Finished
                &&& step is Finish
            }
        },
        Phase::RunningProbe => {
            &&& adds_stage(r0, r1, "scope-probe"@, out)
            &&& artifacts(r1) == a0
            &&& if exited_ok(out) {
                after.phase == Phase::CheckingProbeReport && probes(step, plan.probe_report)
            } else {
                after.phase == Phase::RunningRun && invokes(step, "run"@, run_args(plan))
            }
        },
        Phase::CheckingProbeReport => {
            &&& same_stages(r0, r1)
            &&& artifacts(r1) == (a0.0, a0.1, a0.2, if found { Some(plan.probe_report) } else { a0.3 })
            &&& after.phase == Phase::RunningRun
            &&& invokes(step, "run"@, run_args(plan))
        },
        Phase::RunningRun => {
            &&& adds_stage(r0, r1, "run"@, out)
            &&& artifacts(r1) == a0
            &&& if exited_ok(out) {
                after.phase == Phase::RunningBoard && invokes(step, "board"@, board_args(plan))
            } else {
                after.phase == Phase::Finished && step is Finish
            }
        },
        Phase::RunningBoard => {
            &&& adds_stage(r0, r1, "board"@, out)
            &&& artifacts(r1) == a0
            &&& if exited_ok(out) {
                after.phase == Phase::RunningDrc && invokes(step, "drc"@, drc_args(plan))
            } else {
                after.phase == Phase::Finished && step is Finish
            }
        },
        Phase::RunningDrc => {
            &&& adds_stage(r0, r1, "drc"@, out)
            &&& artifacts(r1) == a0
            &&& after.phase == Phase::Finished
            &&& step is Finish
        },
        Phase::Finished => false,
    }
}

fn text_arg(s: &str) -> (r: Arg)
    ensures
        arg_view(r) == text(s@),
{
    Arg::Text(String::from_str(s))
}

fn string_arg(s: &String) -> (r: Arg)
    ensures
        arg_view(r) == text(s@),
{
    Arg::Text(s.clone())
}

fn push_text_flag(args: &mut Vec<Arg>, flag: &str, value: &Option<String>)
    ensures
        args_view(final(args)@) == args_view(old(args)@) + flag_text(flag@, *value),
{
    let ghost before = args_view(args@);
    if let Some(v) = value {
        args.push(text_arg(flag));
        args.push(string_arg(v));
        assert(args_view(args@) =~= before + flag_text(flag@, *value));
    } else {
        assert(args_view(args@) =~= before + flag_text(flag@, *value));
    }
}

fn push_number_flag(args: &mut Vec<Arg>, flag: &str, value: Option<u64>)
    ensures
        args_view(final(args)@) == args_view(old(args)@) + flag_number(flag@, value),
{
    let ghost before = args_view(args@);
    if let Some(v) = value {
        args.push(text_arg(flag));
        args.push(Arg::Number(v));
        assert(args_view(args@) =~= before + flag_number(flag@, value));
    } else {
        assert(args_view(args@) =~= before + flag_number(flag@, value));
    }
}

fn push_count_flag(args: &mut Vec<Arg>, flag: &str, value: Option<u32>)
    ensures
        args_view(final(args)@) == args_view(old(args)@) + flag_count(flag@, value),
{
    let ghost before = args_view(args@);
    if let Some(v) = value {
        args.push(text_arg(flag));
        args.push(Arg::Text(decimal_string(v as u64)));
        assert(args_view(args@) =~= before + flag_count(flag@, value));
    } else {
        assert(args_view(args@) =~= before + flag_count(flag@, value));
    }
}

impl Plan {
    fn spec_step(&self) -> (r: Step)
        ensures
            invokes(r, "spec"@, spec_args(*self)),
    {
        let args = vec![
            text_arg("spec"),
            string_arg(&self.family),
            text_arg("--brief"),
            string_arg(&self.brief),
            text_arg("--out"),
            string_arg(&self.design_stem),
            text_arg("--trace"),
            string_arg(&self.trace_json),
        ];
        assert(args_view(args@) =~= spec_args(*self));
        Step::Invoke { stage: String::from_str("spec"), args }
    }

    fn schematic_step(&self) -> (r: Step)
        ensures
            invokes(r, "schematic"@, schematic_args(*self)),
    {
        let args = vec![
            text_arg("schematic"),
            string_arg(&self.spec_json),
            text_arg("--out"),
            string_arg(&self.schematic_py),
        ];
        assert(args_view(args@) =~= schematic_args(*self));
        Step::Invoke { stage: String::from_str("schematic"), args }
    }

    fn board_step(&self) -> (r: Step)
        ensures
            invokes(r, "board"@, board_args(*self)),
    {
        let args = vec![
            text_arg("board"),
            string_arg(&self.schematic_py),
            text_arg("--spec"),
            string_arg(&self.spec_json),
            text_arg("--out"),
            string_arg(&self.board_pcb),
        ];
        assert(args_view(args@) =~= board_args(*self));
        Step::Invoke { stage: String::from_str("board"), args }
    }

    fn drc_step(&self) -> (r: Step)
        ensures
            invokes(r, "drc"@, drc_args(*self)),
    {
        let args = vec![text_arg("drc"), string_arg(&self.board_pcb)];
        assert(args_view(args@) =~= drc_args(*self));
        Step::Invoke { stage: String::from_str("drc"), args }
    }

    fn run_step(&self) -> (r: Step)
        ensures
            invokes(r, "run"@, run_args(*self)),
    {
        let args = vec![text_arg("run"), string_arg(&self.schematic_py)];
        assert(args_view(args@) =~= run_args(*self));
        Step::Invoke { stage: String::from_str("run"), args }
    }

    fn probe_step(&self, p: &ProbeSettings) -> (r: Step)
        ensures
            invokes(r, "scope-probe"@, probe_args(*self, *p)),
    {
        let mut args = vec![text_arg("scope-probe"), string_arg(&self.schematic_py)];
        let ghost start = args_view(args@);
        assert(start =~= seq![text("scope-probe"@), text(self.schematic_py@)]);
        push_text_flag(&mut args, "--input-net-hint", &p.input_net_hint);
        push_number_flag(&mut args, "--freq", p.freq_hz);
        push_number_flag(&mut args, "--min-amplitude", p.min_amplitude_v);
        push_number_flag(&mut args, "--max-amplitude", p.max_amplitude_v);
        push_count_flag(&mut args, "--steps", p.steps);
        let ghost middle = args_view(args@);
        args.push(text_arg("--out"));
        args.push(string_arg(&self.probe_report));
        assert(args_view(args@) =~= middle + seq![text("--out"@), text(self.probe_report@)]);
        Step::Invoke { stage: String::from_str("scope-probe"), args }
    }

    fn after_schematic_step(&self) -> (r: (Phase, Step))
        ensures
            after_schematic(*self, r.0, r.1),
    {
        match &self.probe {
            Some(p) => (Phase::RunningProbe, self.probe_step(p)),
            None => (Phase::RunningRun, self.run_step()),
        }
    }
}

/// The scope probe is planned exactly when some criterion of the rubric is a
/// `spice_clips` check, and then with the sweep of the first such criterion.
pub proof fn lemma_probe_of(rubric: Seq<crate::task::Criterion>)
    ensures
        probe_of(rubric) is Some <==> exists|i: int|
            0 <= i < rubric.len() && #[trigger] rubric[i].check is SpiceClips,
    decreases rubric.len(),
{
    if rubric.len() > 0 {
        lemma_probe_of(rubric.drop_first());
        if !(rubric[0].check is SpiceClips) {
            if exists|i: int| 0 <= i < rubric.len() && #[trigger] rubric[i].check is SpiceClips {
                let i = choose|i: int| 0 <= i < rubric.len() && #[trigger] rubric[i].check is SpiceClips;
                assert(rubric.drop_first()[i - 1] == rubric[i]);
            }
            if exists|i: int|
                0 <= i < rubric.drop_first().len() && #[trigger] rubric.drop_first()[i].check is SpiceClips {
                let i = choose|i: int|
                    0 <= i < rubric.drop_first().len() && #[trigger] rubric.drop_first()[i].check is SpiceClips;
                assert(rubric[i + 1] == rubric.drop_first()[i]);
            }
        } else {
            assert(rubric[0].check is SpiceClips);
        }
    }
}

proof fn lemma_settled_push(before: Seq<StageRun>, after: Seq<StageRun>)
    requires
        after.len() == before.len() + 1,
        after.drop_last() == before,
        settled(before, before.len() as int),
    ensures
        settled(after, before.len() as int),
        after.last().spec_passed() || after.last().stage@ == "scope-probe"@ ==> settled(
            after,
            after.len() as int,
        ),
{
    assert forall|i: int| 0 <= i < before.len() implies #[trigger] after[i].spec_passed()
        || after[i].stage@ == "scope-probe"@ by {
        assert(after.drop_last()[i] == after[i]);
    }
}

fn probe_settings(rubric: &Vec<crate::task::Criterion>) -> (r: Option<ProbeSettings>)
    ensures
        r == probe_of(rubric@),
{
    let n = rubric.len();
    let mut i: usize = 0;
    assert(rubric@.skip(0) =~= rubric@);
    while i < n
        invariant
            n == rubric@.len(),
            i <= n,
            probe_of(rubric@) == probe_of(rubric@.skip(i as int)),
        decreases n - i,
    {
        assert(rubric@.skip(i as int)[0] == rubric@[i as int]);
        assert(rubric@.skip(i as int).drop_first() =~= rubric@.skip(i + 1));
        match &rubric[i].check {
            Check::SpiceClips { input_net_hint, freq_hz, min_amplitude_v, max_amplitude_v, steps, .. } => {
                let bits = |q: &Option<crate::quantity::Quantity>| -> (b: Option<u64>)
                    ensures
                        b == bits_of(*q),
                    {
                        match q {
                            Some(q) => Some(q.bits),
                            None => None,
                        }
                    };
                return Some(
                    ProbeSettings {
                        input_net_hint: input_net_hint.clone(),
                        freq_hz: bits(freq_hz),
                        min_amplitude_v: bits(min_amplitude_v),
                        max_amplitude_v: bits(max_amplitude_v),
                        steps: *steps,
                    },
                );
            },
            _ => {},
        }
        i = i + 1;
    }
    assert(rubric@.skip(n as int) =~= Seq::<crate::task::Criterion>::empty());
    None
}

impl Pipeline {
    /// Starts a run of `task` against the backend called `backend`, writing
    /// artifacts under `work_dir`. With `existing_spec`, the live
    /// decision-making step (`spec`) is skipped and the run starts from that
    /// already-written spec. The first step prepares the working directory.
    pub fn start(backend: String, task: &Task, work_dir: String, existing_spec: Option<String>) -> (r: (
        Pipeline,
        Step,
    ))
        ensures
            r.0.wf(),
            r.0.phase == Phase::Preparing,
            r.0.plan.backend == backend,
            r.0.plan.family@ == task.family@,
            r.0.plan.brief@ == task.brief@,
            r.0.plan.work_dir == work_dir,
            r.0.plan.existing_spec == existing_spec,
            r.0.plan.probe == probe_of(task.rubric@),
            r.0.plan.spec_json@ == joined_path(work_dir@, "design.json"@),
            r.0.plan.trace_json@ == joined_path(work_dir@, "design.trace.json"@),
            r.0.plan.design_stem@ == joined_path(work_dir@, "design"@),
            r.0.plan.schematic_py@ == joined_path(work_dir@, "circuit.py"@),
            r.0.plan.probe_report@ == joined_path(work_dir@, "scope-probe.json"@),
            r.0.plan.board_pcb@ == joined_path(work_dir@, "board.kicad_pcb"@),
            r.0.result.backend == backend,
            r.0.result.stages@.len() == 0,
            artifacts(r.0.result) == (
                None::<String>,
                None::<String>,
                None::<String>,
                None::<String>,
            ),
            r.1 matches Step::PrepareWorkDir { dir } && dir == work_dir,
    {
        let plan = Plan {
            backend: backend.clone(),
            family: task.family.clone(),
            brief: task.brief.clone(),
            work_dir: work_dir.clone(),
            existing_spec,
            probe: probe_settings(&task.rubric),
            spec_json: path_join(&work_dir, "design.json"),
            trace_json: path_join(&work_dir, "design.trace.json"),
            design_stem: path_join(&work_dir, "design"),
            schematic_py: path_join(&work_dir, "circuit.py"),
            probe_report: path_join(&work_dir, "scope-probe.json"),
            board_pcb: path_join(&work_dir, "board.kicad_pcb"),
        };
        let result = RunResult {
            backend,
            stages: Vec::new(),
            spec_json: None,
            schematic_py: None,
            decision_trace: None,
            scope_probe_json: None,
        };
        let p = Pipeline { plan, phase: Phase::Preparing, result };
        assert(stage_names(p.result.stages@) =~= planned_stages(p.plan).take(0));
        (p, Step::PrepareWorkDir { dir: work_dir })
    }

    fn record(&mut self, name: &str, out: StageOutput)
        ensures
            final(self).plan == old(self).plan,
            final(self).phase == old(self).phase,
            adds_stage(old(self).result, final(self).result, name@, out),
            artifacts(final(self).result) == artifacts(old(self).result),
    {
        let stage = StageRun {
            stage: String::from_str(name),
            command: out.command,
            exit_code: out.exit_code,
            stdout: out.stdout,
            stderr: out.stderr,
        };
        let ghost before = self.result.stages@;
        self.result.stages.push(stage);
        assert(self.result.stages@.drop_last() =~= before);
    }

    /// Moves the run on with the answer to its last step, and returns the
    /// next step.
    pub fn resume(&mut self, event: Event) -> (step: Step)
        requires
            old(self).wf(),
            old(self).fits(event),
        ensures
            final(self).wf(),
            final(self).plan == old(self).plan,
            moves(*old(self), event, *final(self), step),
            step is Finish <==> final(self).phase == Phase::Finished,
    {
        let ghost before = *self;
        let ghost k = spec_stages(self.plan);
        let ghost planned = planned_stages(self.plan);
        proof {
            reveal_strlit("spec");
            reveal_strlit("schematic");
            reveal_strlit("scope-probe");
            reveal_strlit("run");
            reveal_strlit("board");
            reveal_strlit("drc");
        }
        match (self.phase, event) {
            (Phase::Preparing, _) => {
                match &self.plan.existing_spec {
                    Some(from) => {
                        self.phase = Phase::CopyingSpec;
                        Step::CopySpec { from: from.clone(), to: self.plan.spec_json.clone() }
                    },
                    None => {
                        self.phase = Phase::RunningSpec;
                        self.plan.spec_step()
                    },
                }
            },
            (Phase::CopyingSpec, _) => {
                self.result.spec_json = Some(self.plan.spec_json.clone());
                self.phase = Phase::CheckingTrace;
                Step::Probe { path: self.plan.trace_json.clone() }
            },
            (Phase::RunningSpec, Event::Exited(out)) => {
                let ok = out.exit_code == Some(0i32);
                self.record("spec", out);
                proof {
                    lemma_settled_push(before.result.stages@, self.result.stages@);
                    assert(stage_names(self.result.stages@) =~= planned.take(1));
                }
                if ok {
                    self.result.spec_json = Some(self.plan.spec_json.clone());
                    self.phase = Phase::CheckingTrace;
                    Step::Probe { path: self.plan.trace_json.clone() }
                } else {
                    proof {
                        assert(self.result.stages@.last().stage@.len() != "scope-probe"@.len());
                    }
                    self.phase = Phase::Finished;
                    Step::Finish
                }
            },
            (Phase::CheckingTrace, Event::Found(found)) => {
                if found {
                    self.result.decision_trace = Some(self.plan.trace_json.clone());
                }
                self.phase = Phase::RunningSchematic;
                self.plan.schematic_step()
            },
            (Phase::RunningSchematic, Event::Exited(out)) => {
                let ok = out.exit_code == Some(0i32);
                self.record("schematic", out);
                proof {
                    lemma_settled_push(before.result.stages@, self.result.stages@);
                    assert(stage_names(self.result.stages@) =~= planned.take(k + 1));
                }
                if ok {
                    self.result.schematic_py = Some(self.plan.schematic_py.clone());
                    let (phase, step) = self.plan.after_schematic_step();
                    self.phase = phase;
                    step
                } else {
                    proof {
                        assert(self.result.stages@.last().stage@.len() != "scope-probe"@.len());
                    }
                    self.phase = Phase::Finished;
                    Step::Finish
                }
            },
            (Phase::RunningProbe, Event::Exited(out)) => {
                let ok = out.exit_code == Some(0i32);
                self.record("scope-probe", out);
                proof {
                    lemma_settled_push(before.result.stages@, self.result.stages@);
                    assert(stage_names(self.result.stages@) =~= planned.take(k + 2));
                }
                if ok {
                    self.phase = Phase::CheckingProbeReport;
                    Step::Probe { path: self.plan.probe_report.clone() }
                } else {
                    self.phase = Phase::RunningRun;
                    self.plan.run_step()
                }
            },
            (Phase::CheckingProbeReport, Event::Found(found)) => {
                if found {
                    self.result.scope_probe_json = Some(self.plan.probe_report.clone());
                }
                self.phase = Phase::RunningRun;
                self.plan.run_step()
            },
            (Phase::RunningRun, Event::Exited(out)) => {
                let ok = out.exit_code == Some(0i32);
                self.record("run", out);
                proof {
                    lemma_settled_push(before.result.stages@, self.result.stages@);
                    assert(stage_names(self.result.stages@) =~= planned.take(planned.len() - 2));
                }
                if ok {
                    self.phase = Phase::RunningBoard;
                    self.plan.board_step()
                } else {
                    proof {
                        assert(self.result.stages@.last().stage@.len() != "scope-probe"@.len());
                    }
                    self.phase = Phase::Finished;
                    Step::Finish
                }
            },
            (Phase::RunningBoard, Event::Exited(out)) => {
                let ok = out.exit_code == Some(0i32);
                self.record("board", out);
                proof {
                    lemma_settled_push(before.result.stages@, self.result.stages@);
                    assert(stage_names(self.result.stages@) =~= planned.take(planned.len() - 1));
                }
                if ok {
                    self.phase = Phase::RunningDrc;
                    self.plan.drc_step()
                } else {
                    proof {
                        assert(self.result.stages@.last().stage@.len() != "scope-probe"@.len());
                    }
                    self.phase = Phase::Finished;
                    Step::Finish
                }
            },
            (Phase::RunningDrc, Event::Exited(out)) => {
                self.record("drc", out);
                proof {
                    lemma_settled_push(before.result.stages@, self.result.stages@);
                    assert(stage_names(self.result.stages@) =~= planned.take(planned.len() as int));
                }
                self.phase = Phase::Finished;
                Step::Finish
            },
            _ => {
                proof {
                    assert(false);
                }
                Step::Finish
            },
        }
    }

    /// What a finished run has collected: its stages ran in the planned
    /// order (spec, unless an existing spec was given; schematic; the scope
    /// probe, only when the rubric asks for it; run; board; drc), each at
    /// most once;
    /// every stage but the last passed or is the scope probe, so no stage
    /// follows a failed one; the run stopped before its plan was done only
    /// because a stage other than the scope probe failed; and a run that
    /// went through its whole plan recorded its spec and its schematic; a
    /// run started from an existing spec always recorded that spec; the spec
    /// and the schematic are recorded exactly when the step that makes them
    /// passed (copying, or the spec stage; the schematic stage); and the
    /// decision trace and the scope-probe report are recorded only after the
    /// step that writes them passed.
    pub proof fn lemma_finished(&self)
        requires
            self.wf(),
            self.phase == Phase::Finished,
        ensures
            ({
                let stages = self.result.stages@;
                let n = stages.len() as int;
                let planned = planned_stages(self.plan);
                &&& stage_names(stages) == planned.take(n)
                &&& forall|i: int|
                    0 <= i < n - 1 ==> #[trigger] stages[i].spec_passed() || stages[i].stage@
                        == "scope-probe"@
                &&& n == planned.len() || (n > 0 && !stages[n - 1].spec_passed()
                    && stages[n - 1].stage@ != "scope-probe"@)
                &&& n == planned.len() ==> self.result.spec_json is Some
                    && self.result.schematic_py is Some
                &&& self.plan.existing_spec is Some ==> self.result.spec_json is Some
                &&& (self.result.spec_json is Some <==> (self.plan.existing_spec is Some || (n
                    >= 1 && stages[0].spec_passed())))
                &&& (self.result.schematic_py is Some <==> (n >= spec_stages(self.plan) + 1
                    && stages[spec_stages(self.plan)].spec_passed()))
                &&& (self.result.decision_trace is Some ==> self.result.spec_json is Some)
                &&& (self.result.scope_probe_json is Some ==> self.plan.probe is Some && n
                    >= spec_stages(self.plan) + 2 && stages[spec_stages(self.plan)
                    + 1].spec_passed())
                &&& (planned.contains("scope-probe"@) <==> self.plan.probe is Some)
                &&& (planned.contains("spec"@) <==> self.plan.existing_spec is None)
            }),
    {
        let planned = planned_stages(self.plan);
        reveal_strlit("spec");
        reveal_strlit("schematic");
        reveal_strlit("scope-probe");
        reveal_strlit("run");
        reveal_strlit("board");
        reveal_strlit("drc");
        if self.plan.probe is Some {
            assert(planned[spec_stages(self.plan) + 1] == "scope-probe"@);
        } else {
            assert forall|i: int| 0 <= i < planned.len() implies planned[i] != "scope-probe"@ by {
                assert(planned[i].len() != "scope-probe"@.len());
            }
        }
        if self.plan.existing_spec is None {
            assert(planned[0] == "spec"@);
        } else {
            assert forall|i: int| 0 <= i < planned.len() implies planned[i] != "spec"@ by {
                assert(planned[i].len() != "spec"@.len());
            }
        }
    }

    /// The result the run has collected.
    pub fn into_result(self) -> (r: RunResult)
        ensures
            r == self.result,
    {
        self.result
    }
}

/// Whenever the run checks for the decision trace and finds it, the trace is
/// recorded at the plan's path, whether the run produced its spec or started
/// from an existing one; when the trace is not found nothing is recorded.
pub proof fn lemma_found_trace_is_recorded(
    before: Pipeline,
    found: bool,
    after: Pipeline,
    step: Step,
)
    requires
        before.phase == Phase::CheckingTrace,
        moves(before, Event::Found(found), after, step),
    ensures
        found ==> after.result.decision_trace == Some(before.plan.trace_json),
        !found ==> after.result.decision_trace == before.result.decision_trace,
        after.result.spec_json == before.result.spec_json,
        after.result.stages@ == before.result.stages@,
{
}

/// The decision trace is checked for right after the spec is in place: after
/// the spec stage passed, and likewise after an existing spec was copied.
pub proof fn lemma_trace_checked_after_spec(before: Pipeline, event: Event, after: Pipeline, step: Step)
    requires
        moves(before, event, after, step),
        before.phase == Phase::CopyingSpec || (before.phase == Phase::RunningSpec && exit_of(event)
            is Some && exit_of(event).unwrap().exit_code == Some(0i32)),
    ensures
        after.phase == Phase::CheckingTrace,
        step matches Step::Probe { path } && path == before.plan.trace_json,
        after.result.spec_json == Some(before.plan.spec_json),
{
}

} // verus!
