//! The lifecycle of one process that runs a plugin script.
use vstd::prelude::*;
use super::resolve::PluginScriptSkill;
use super::resolve::ResolvedPluginScript;
use crate::outside::ids::is_uuid;
use crate::outside::ids::random_uuid;

verus! {

/// How far a process has come.
#[derive(Debug, Clone, Copy, PartialEq, Eq, Structural)]
pub enum PluginScriptLifecycleStatus {
    /// It runs.
    Started,
    /// It ended well.
    Completed,
    /// It ended badly.
    Failed,
    /// It was cancelled.
    Cancelled,
}

/// An event in the life of a process.
#[derive(Debug, Clone, PartialEq, Eq)]
pub struct PluginScriptLifecycleEvent {
    /// The thread that runs the process.
    pub thread_id: String,
    /// The turn that runs the process.
    pub turn_id: String,
    /// The plugin.
    pub plugin_id: String,
    /// The identity of this run.
    pub execution_id: String,
    /// The script.
    pub script_path: String,
    /// How far the process has come.
    pub status: PluginScriptLifecycleStatus,
    /// How long it ran, in milliseconds.
    pub duration_ms: Option<u64>,
    /// Its exit code.
    pub exit_code: Option<i32>,
    /// The skill.
    pub skill: Option<PluginScriptSkill>,
}

/// What all events of a run have in common.
#[verifier::ext_equal]
pub struct RunModel {
    /// The thread.
    pub thread_id: Seq<char>,
    /// The turn.
    pub turn_id: Seq<char>,
    /// The plugin.
    pub plugin_id: Seq<char>,
    /// The identity of the run.
    pub execution_id: Seq<char>,
    /// The script.
    pub script_path: Seq<char>,
    /// The name and the path of the skill.
    pub skill: Option<(Seq<char>, Seq<char>)>,
}

/// The name and the path of a skill.
pub open spec fn skill_model(skill: Option<PluginScriptSkill>) -> Option<(Seq<char>, Seq<char>)> {
    match skill {
        Some(s) => Some((s.skill_name@, s.skill_path@)),
        None => None,
    }
}

impl PluginScriptLifecycleEvent {
    /// What the event has in common with the other events of its run.
    pub open spec fn run(self) -> RunModel {
        RunModel {
            thread_id: self.thread_id@,
            turn_id: self.turn_id@,
            plugin_id: self.plugin_id@,
            execution_id: self.execution_id@,
            script_path: self.script_path@,
            skill: skill_model(self.skill),
        }
    }

    /// What the event reports.
    pub open spec fn report(self) -> Report {
        Report {
            status: self.status,
            duration_ms: self.duration_ms,
            exit_code: self.exit_code,
        }
    }

    /// Another event of the same run.
    fn with_status(
        &self,
        status: PluginScriptLifecycleStatus,
        duration_ms: Option<u64>,
        exit_code: Option<i32>,
    ) -> (r: Self)
        ensures
            r.run() == self.run(),
            r.status == status,
            r.duration_ms == duration_ms,
            r.exit_code == exit_code,
    {
        PluginScriptLifecycleEvent {
            thread_id: self.thread_id.clone(),
            turn_id: self.turn_id.clone(),
            plugin_id: self.plugin_id.clone(),
            execution_id: self.execution_id.clone(),
            script_path: self.script_path.clone(),
            status,
            duration_ms,
            exit_code,
            skill: match &self.skill {
                Some(s) => Some(
                    PluginScriptSkill {
                        skill_name: s.skill_name.clone(),
                        skill_path: s.skill_path.clone(),
                    },
                ),
                None => None,
            },
        }
    }
}

/// The state of a run.
#[verifier::ext_equal]
pub struct ExecutionModel {
    /// When the process started, in nanoseconds.
    pub started_at: Option<u64>,
    /// Whether its end was reported.
    pub ended: bool,
    /// Whether it was cancelled.
    pub cancelled: bool,
}

/// The status with which a process ended.
pub open spec fn final_status(cancelled: bool, exit_code: Option<i32>, failed: bool) -> PluginScriptLifecycleStatus {
    if cancelled {
        PluginScriptLifecycleStatus::Cancelled
    } else if !failed && exit_code == Some(0i32) {
        PluginScriptLifecycleStatus::Completed
    } else {
        PluginScriptLifecycleStatus::Failed
    }
}

/// The milliseconds from one time to another, in nanoseconds each.
pub open spec fn elapsed_ms(from: u64, to: u64) -> u64 {
    if to < from {
        0
    } else {
        ((to - from) / 1_000_000) as u64
    }
}

/// What an event of a run reports.
#[verifier::ext_equal]
pub struct Report {
    /// How far the process has come.
    pub status: PluginScriptLifecycleStatus,
    /// How long it ran, in milliseconds.
    pub duration_ms: Option<u64>,
    /// Its exit code.
    pub exit_code: Option<i32>,
}

/// The report of a start.
pub open spec fn start_report() -> Report {
    Report {
        status: PluginScriptLifecycleStatus::Started,
        duration_ms: None,
        exit_code: None,
    }
}

/// The report of an end, with this exit code or failure, of a process that ran from
/// one time to another and was cancelled or not.
pub open spec fn end_report(
    cancelled: bool,
    exit_code: Option<i32>,
    failed: bool,
    from: u64,
    to: u64,
) -> Report {
    Report {
        status: final_status(cancelled, exit_code, failed),
        duration_ms: Some(elapsed_ms(from, to)),
        exit_code,
    }
}

/// Something that happens to a run.
pub enum ExecutionInput {
    /// The process was spawned at this time.
    Start(u64),
    /// The process was cancelled.
    Cancel,
    /// The process was seen to have ended, with this exit code or failure, at this time.
    Finish(Option<i32>, bool, u64),
}

impl ExecutionModel {
    /// What the input leads to a report of.
    pub open spec fn reports(self, input: ExecutionInput) -> Option<Report> {
        match input {
            ExecutionInput::Start(_) => if self.started_at is None {
                Some(start_report())
            } else {
                None
            },
            ExecutionInput::Cancel => None,
            ExecutionInput::Finish(exit_code, failed, now) => if self.started_at is Some
                && !self.ended {
                Some(end_report(self.cancelled, exit_code, failed, self.started_at->0, now))
            } else {
                None
            },
        }
    }

    /// The state after the input.
    pub open spec fn after(self, input: ExecutionInput) -> Self {
        match input {
            ExecutionInput::Start(now) => if self.started_at is None {
                ExecutionModel { started_at: Some(now), ..self }
            } else {
                self
            },
            ExecutionInput::Cancel => ExecutionModel { cancelled: true, ..self },
            ExecutionInput::Finish(_, _, _) => if self.started_at is Some {
                ExecutionModel { ended: true, ..self }
            } else {
                self
            },
        }
    }
}

/// One run of a plugin script. It is resolved before the process is launched,
/// but nothing is reported until the process was spawned; and since its end can
/// be seen in several ways, the end is reported once.
pub struct PluginScriptExecution {
    event: PluginScriptLifecycleEvent,
    started_at: Option<u64>,
    terminal_emitted: bool,
    cancelled: bool,
}

impl View for PluginScriptExecution {
    type V = ExecutionModel;

    closed spec fn view(&self) -> ExecutionModel {
        ExecutionModel {
            started_at: self.started_at,
            ended: self.terminal_emitted,
            cancelled: self.cancelled,
        }
    }
}

impl PluginScriptExecution {
    /// What all events of the run have in common.
    pub closed spec fn run(self) -> RunModel {
        self.event.run()
    }

    /// A run of the resolved script under a fresh identity, where reporting is enabled.
    pub fn resolve(
        enabled: bool,
        resolved: Option<ResolvedPluginScript>,
        thread_id: &str,
        turn_id: &str,
    ) -> (r: Option<Self>)
        ensures
            match r {
                Some(e) => enabled && resolved is Some && is_uuid(e.run().execution_id, '4')
                    && e.run() == run_of(
                    resolved->0,
                    thread_id@,
                    turn_id@,
                    e.run().execution_id,
                ) && e@ == (ExecutionModel { started_at: None, ended: false, cancelled: false }),
                None => !enabled || resolved is None,
            },
    {
        match resolved {
            Some(resolved) if enabled => Some(
                Self::with_execution_id(resolved, thread_id, turn_id, random_uuid()),
            ),
            _ => None,
        }
    }

    /// A run of the resolved script under the given identity.
    pub fn with_execution_id(
        resolved: ResolvedPluginScript,
        thread_id: &str,
        turn_id: &str,
        execution_id: String,
    ) -> (r: Self)
        ensures
            r.run() == run_of(resolved, thread_id@, turn_id@, execution_id@),
            r@ == (ExecutionModel { started_at: None, ended: false, cancelled: false }),
    {
        PluginScriptExecution {
            event: PluginScriptLifecycleEvent {
                thread_id: thread_id.to_owned(),
                turn_id: turn_id.to_owned(),
                plugin_id: resolved.plugin_id,
                execution_id,
                script_path: resolved.script_path,
                status: PluginScriptLifecycleStatus::Started,
                duration_ms: None,
                exit_code: None,
                skill: resolved.skill,
            },
            started_at: None,
            terminal_emitted: false,
            cancelled: false,
        }
    }

    /// Notes that the process was spawned; the first time, the event to report
    /// is returned.
    pub fn mark_started(&mut self, now: u64) -> (r: Option<PluginScriptLifecycleEvent>)
        ensures
            final(self)@ == old(self)@.after(ExecutionInput::Start(now)),
            final(self).run() == old(self).run(),
            match old(self)@.reports(ExecutionInput::Start(now)) {
                Some(report) => r matches Some(e) && e.run() == old(self).run() && e.report()
                    == report,
                None => r is None,
            },
    {
        if self.started_at.is_some() {
            return None;
        }
        self.started_at = Some(now);
        Some(self.event.with_status(PluginScriptLifecycleStatus::Started, None, None))
    }

    /// Notes that the process was cancelled.
    pub fn mark_cancelled(&mut self)
        ensures
            final(self)@ == old(self)@.after(ExecutionInput::Cancel),
            final(self).run() == old(self).run(),
    {
        self.cancelled = true;
    }

    /// Notes that the process was seen to have ended; the first time after its
    /// start, the event to report is returned.
    pub fn finish(&mut self, exit_code: Option<i32>, failed: bool, now: u64) -> (r: Option<
        PluginScriptLifecycleEvent,
    >)
        ensures
            final(self)@ == old(self)@.after(ExecutionInput::Finish(exit_code, failed, now)),
            final(self).run() == old(self).run(),
            match old(self)@.reports(ExecutionInput::Finish(exit_code, failed, now)) {
                Some(report) => r matches Some(e) && e.run() == old(self).run() && e.report()
                    == report,
                None => r is None,
            },
    {
        let started_at = match self.started_at {
            Some(started_at) => started_at,
            None => {
                return None;
            },
        };
        if self.terminal_emitted {
            return None;
        }
        self.terminal_emitted = true;
        let succeeded = match exit_code {
            Some(code) => !failed && code == 0,
            None => false,
        };
        let status = if self.cancelled {
            PluginScriptLifecycleStatus::Cancelled
        } else if succeeded {
            PluginScriptLifecycleStatus::Completed
        } else {
            PluginScriptLifecycleStatus::Failed
        };
        let duration_ms: u64 = if now < started_at {
            0
        } else {
            (now - started_at) / 1_000_000
        };
        Some(self.event.with_status(status, Some(duration_ms), exit_code))
    }
}

/// What all events of a run of the script have in common.
pub open spec fn run_of(
    resolved: ResolvedPluginScript,
    thread_id: Seq<char>,
    turn_id: Seq<char>,
    execution_id: Seq<char>,
) -> RunModel {
    RunModel {
        thread_id,
        turn_id,
        plugin_id: resolved.plugin_id@,
        execution_id,
        script_path: resolved.script_path@,
        skill: skill_model(resolved.skill),
    }
}

/// The state before the process was spawned.
pub open spec fn not_started() -> ExecutionModel {
    ExecutionModel { started_at: None, ended: false, cancelled: false }
}

/// The state after a list of inputs, and what was reported.
pub open spec fn after_inputs(m: ExecutionModel, inputs: Seq<ExecutionInput>) -> (
    ExecutionModel,
    Seq<Report>,
)
    decreases inputs.len(),
{
    if inputs.len() == 0 {
        (m, Seq::empty())
    } else {
        let (here, out) = after_inputs(m, inputs.drop_last());
        let input = inputs.last();
        (
            here.after(input),
            match here.reports(input) {
                Some(report) => out.push(report),
                None => out,
            },
        )
    }
}

/// Whether the input at `i` is the first start.
pub open spec fn starts_at(inputs: Seq<ExecutionInput>, i: int) -> bool {
    &&& 0 <= i < inputs.len()
    &&& inputs[i] is Start
    &&& forall|k: int| 0 <= k < i ==> !(#[trigger] inputs[k] is Start)
}

/// Whether the input at `j` is the first finish after that at `i`.
pub open spec fn ends_at(inputs: Seq<ExecutionInput>, i: int, j: int) -> bool {
    &&& i < j < inputs.len()
    &&& inputs[j] is Finish
    &&& forall|k: int| i < k < j ==> !(#[trigger] inputs[k] is Finish)
}

/// Whether the run was cancelled before the input at `j`.
pub open spec fn cancelled_before(inputs: Seq<ExecutionInput>, j: int) -> bool {
    exists|k: int| 0 <= k < j && k < inputs.len() && #[trigger] inputs[k] is Cancel
}

/// The report of the finish at `j` for the start at `i`.
pub open spec fn report_at(inputs: Seq<ExecutionInput>, i: int, j: int) -> Report {
    end_report(
        cancelled_before(inputs, j),
        inputs[j]->Finish_0,
        inputs[j]->Finish_1,
        inputs[i]->Start_0,
        inputs[j]->Finish_2,
    )
}

/// Whatever happens to a run, and however often: the first start is reported, and
/// then the first finish after it, with its exit code, the time since that start
/// and whether the run was cancelled before; and nothing else is.
pub proof fn law_one_start_then_one_end(inputs: Seq<ExecutionInput>)
    ensures
        ({
            let (m, out) = after_inputs(not_started(), inputs);
            &&& out.len() <= 2
            &&& m.started_at is Some == (out.len() >= 1)
            &&& m.ended == (out.len() == 2)
            &&& out.len() >= 1 <==> exists|i: int| starts_at(inputs, i)
            &&& out.len() == 2 <==> exists|i: int, j: int|
                #[trigger] starts_at(inputs, i) && #[trigger] ends_at(inputs, i, j)
            &&& forall|i: int| #[trigger] starts_at(inputs, i) ==> out[0] == start_report()
            &&& forall|i: int, j: int| #[trigger]
                starts_at(inputs, i) && #[trigger] ends_at(inputs, i, j) ==> out[1] == report_at(
                    inputs,
                    i,
                    j,
                )
        }),
{
    let (m, out) = after_inputs(not_started(), inputs);
    lemma_stands(inputs);
    assert forall|i: int, j: int| #[trigger] starts_at(inputs, i) && #[trigger] ends_at(
        inputs,
        i,
        j,
    ) implies out.len() == 2 && out[1] == report_at(inputs, i, j) by {
        assert(out.len() > 0) by {
            assert(inputs[i] is Start);
        }
        if out.len() == 1 {
            let a = choose|a: int|
                {
                    &&& #[trigger] starts_at(inputs, a)
                    &&& m.started_at == Some(inputs[a]->Start_0)
                    &&& forall|k: int| a < k < inputs.len() ==> !(#[trigger] inputs[k] is Finish)
                };
            lemma_first_is_one(inputs, i, a);
            assert(inputs[j] is Finish);
        } else {
            let (a, b) = choose|a: int, b: int|
                {
                    &&& #[trigger] starts_at(inputs, a)
                    &&& #[trigger] ends_at(inputs, a, b)
                    &&& out[1] == report_at(inputs, a, b)
                };
            lemma_first_is_one(inputs, i, a);
            lemma_end_is_one(inputs, i, j, b);
        }
    }
    assert forall|i: int| #[trigger] starts_at(inputs, i) implies out.len() >= 1 && out[0]
        == start_report() by {
        assert(inputs[i] is Start);
    }
}

/// Where the run stands after the inputs, by the first start and the first finish.
spec fn stands(inputs: Seq<ExecutionInput>, m: ExecutionModel, out: Seq<Report>) -> bool {
    &&& m.cancelled == cancelled_before(inputs, inputs.len() as int)
    &&& if out.len() == 0 {
        &&& m.started_at is None
        &&& !m.ended
        &&& forall|k: int| 0 <= k < inputs.len() ==> !(#[trigger] inputs[k] is Start)
    } else if out.len() == 1 {
        &&& !m.ended
        &&& out[0] == start_report()
        &&& exists|i: int|
            {
                &&& #[trigger] starts_at(inputs, i)
                &&& m.started_at == Some(inputs[i]->Start_0)
                &&& forall|k: int| i < k < inputs.len() ==> !(#[trigger] inputs[k] is Finish)
            }
    } else {
        &&& out.len() == 2
        &&& m.ended
        &&& m.started_at is Some
        &&& out[0] == start_report()
        &&& exists|i: int, j: int|
            {
                &&& #[trigger] starts_at(inputs, i)
                &&& #[trigger] ends_at(inputs, i, j)
                &&& out[1] == report_at(inputs, i, j)
            }
    }
}

proof fn lemma_cancelled(inputs: Seq<ExecutionInput>, j: int)
    requires
        inputs.len() > 0,
        0 <= j < inputs.len(),
    ensures
        cancelled_before(inputs, j) == cancelled_before(inputs.drop_last(), j),
        cancelled_before(inputs, inputs.len() as int) == (cancelled_before(
            inputs.drop_last(),
            inputs.len() - 1,
        ) || inputs.last() is Cancel),
{
    let fewer = inputs.drop_last();
    assert forall|n: int| 0 <= n < inputs.len() implies #[trigger] cancelled_before(inputs, n)
        == cancelled_before(fewer, n) by {
        if cancelled_before(inputs, n) {
            let k = choose|k: int| 0 <= k < n && k < inputs.len() && #[trigger] inputs[k] is Cancel;
            assert(fewer[k] is Cancel);
        }
        if cancelled_before(fewer, n) {
            let k = choose|k: int| 0 <= k < n && k < fewer.len() && #[trigger] fewer[k] is Cancel;
            assert(inputs[k] is Cancel);
        }
    }
    let last = inputs.len() - 1;
    assert(inputs[last] == inputs.last());
    if cancelled_before(inputs, inputs.len() as int) && !(inputs.last() is Cancel) {
        let k = choose|k: int|
            0 <= k < inputs.len() && k < inputs.len() && #[trigger] inputs[k] is Cancel;
        assert(cancelled_before(inputs, last));
    }
    if cancelled_before(inputs, last) {
        let k = choose|k: int| 0 <= k < last && k < inputs.len() && #[trigger] inputs[k] is Cancel;
        assert(inputs[k] is Cancel);
    }
}

proof fn lemma_places(inputs: Seq<ExecutionInput>, i: int, j: int)
    requires
        inputs.len() > 0,
        0 <= i,
    ensures
        starts_at(inputs.drop_last(), i) ==> starts_at(inputs, i) && inputs[i]
            == inputs.drop_last()[i],
        ends_at(inputs.drop_last(), i, j) ==> ends_at(inputs, i, j) && inputs[j]
            == inputs.drop_last()[j],
{
    let fewer = inputs.drop_last();
    if starts_at(fewer, i) {
        assert forall|k: int| 0 <= k < i implies !(#[trigger] inputs[k] is Start) by {
            assert(!(fewer[k] is Start));
        }
    }
    if ends_at(fewer, i, j) {
        assert forall|k: int| i < k < j implies !(#[trigger] inputs[k] is Finish) by {
            assert(!(fewer[k] is Finish));
        }
    }
}

proof fn lemma_stands(inputs: Seq<ExecutionInput>)
    ensures
        stands(inputs, after_inputs(not_started(), inputs).0, after_inputs(not_started(), inputs).1),
    decreases inputs.len(),
{
    if inputs.len() > 0 {
        let fewer = inputs.drop_last();
        lemma_stands(fewer);
        let (here, out) = after_inputs(not_started(), fewer);
        let (m, all) = after_inputs(not_started(), inputs);
        let last = inputs.len() - 1;
        let input = inputs.last();
        assert(inputs[last] == input);
        lemma_cancelled(inputs, last);
        if out.len() == 0 {
            assert forall|k: int| 0 <= k < last implies !(#[trigger] inputs[k] is Start) by {
                assert(!(fewer[k] is Start));
            }
            if input is Start {
                assert(starts_at(inputs, last));
            }
        } else if out.len() == 1 {
            let i = choose|i: int|
                {
                    &&& #[trigger] starts_at(fewer, i)
                    &&& here.started_at == Some(fewer[i]->Start_0)
                    &&& forall|k: int| i < k < fewer.len() ==> !(#[trigger] fewer[k] is Finish)
                };
            lemma_places(inputs, i, i);
            assert forall|k: int| i < k < last implies !(#[trigger] inputs[k] is Finish) by {
                assert(!(fewer[k] is Finish));
            }
            assert(starts_at(inputs, i));
            if input is Finish {
                assert(ends_at(inputs, i, last));
                assert(all[1] == report_at(inputs, i, last));
            }
        } else {
            let (i, j) = choose|i: int, j: int|
                {
                    &&& #[trigger] starts_at(fewer, i)
                    &&& #[trigger] ends_at(fewer, i, j)
                    &&& out[1] == report_at(fewer, i, j)
                };
            lemma_places(inputs, i, j);
            lemma_cancelled(inputs, j);
            assert(starts_at(inputs, i) && ends_at(inputs, i, j));
            assert(all[1] == report_at(inputs, i, j));
        }
    } else {
        assert(!cancelled_before(inputs, 0));
    }
}

proof fn lemma_first_is_one(inputs: Seq<ExecutionInput>, i: int, k: int)
    requires
        starts_at(inputs, i),
        starts_at(inputs, k),
    ensures
        i == k,
{
    if i < k {
        assert(inputs[i] is Start);
    } else if k < i {
        assert(inputs[k] is Start);
    }
}

proof fn lemma_end_is_one(inputs: Seq<ExecutionInput>, i: int, j: int, k: int)
    requires
        ends_at(inputs, i, j),
        ends_at(inputs, i, k),
    ensures
        j == k,
{
    if j < k {
        assert(inputs[j] is Finish);
    } else if k < j {
        assert(inputs[k] is Finish);
    }
}

/// A run that was cancelled before its end was seen is reported as cancelled,
/// whatever its exit code.
pub proof fn law_cancelled_run_ends_cancelled(
    m: ExecutionModel,
    exit_code: Option<i32>,
    failed: bool,
    now: u64,
)
    requires
        m.started_at is Some,
        !m.ended,
    ensures
        m.after(ExecutionInput::Cancel).reports(ExecutionInput::Finish(exit_code, failed, now))
            matches Some(report) && report.status == PluginScriptLifecycleStatus::Cancelled
            && report.exit_code == exit_code,
{
}

/// A process ends well exactly where it was not cancelled, nothing failed and its
/// exit code is zero; one that was cancelled is so reported, and every other one
/// ended badly. Its exit code is reported as it is, and the time that it ran in
/// whole milliseconds.
pub proof fn law_end_says_how_the_process_ended(
    cancelled: bool,
    exit_code: Option<i32>,
    failed: bool,
    from: u64,
    to: u64,
)
    ensures
        ({
            let report = end_report(cancelled, exit_code, failed, from, to);
            &&& report.status == PluginScriptLifecycleStatus::Completed <==> !cancelled && !failed
                && exit_code == Some(0i32)
            &&& report.status == PluginScriptLifecycleStatus::Cancelled <==> cancelled
            &&& report.status != PluginScriptLifecycleStatus::Started
            &&& report.exit_code == exit_code
            &&& report.duration_ms is Some
            &&& from <= to ==> {
                &&& (report.duration_ms->0) * 1_000_000 <= to - from
                &&& to - from < (report.duration_ms->0 + 1) * 1_000_000
            }
            &&& to < from ==> report.duration_ms == Some(0u64)
        }),
{
}

/// A start is reported without a duration and without an exit code.
pub proof fn law_start_reports_nothing_of_the_end(m: ExecutionModel, now: u64)
    requires
        m.started_at is None,
    ensures
        m.reports(ExecutionInput::Start(now)) matches Some(report) && report.status
            == PluginScriptLifecycleStatus::Started && report.duration_ms is None
            && report.exit_code is None,
        m.after(ExecutionInput::Start(now)).started_at == Some(now),
        m.after(ExecutionInput::Start(now)).cancelled == m.cancelled,
{
}

/// The events of a run name the thread and the turn that run it, the identity of
/// the run, and the plugin, the script and the skill that were resolved.
pub proof fn law_events_name_what_was_resolved(
    resolved: ResolvedPluginScript,
    thread_id: Seq<char>,
    turn_id: Seq<char>,
    execution_id: Seq<char>,
)
    ensures
        ({
            let run = run_of(resolved, thread_id, turn_id, execution_id);
            &&& run.thread_id == thread_id
            &&& run.turn_id == turn_id
            &&& run.execution_id == execution_id
            &&& run.plugin_id == resolved.plugin_id@
            &&& run.script_path == resolved.script_path@
            &&& run.skill is Some == resolved.skill is Some
            &&& resolved.skill matches Some(s) ==> run.skill == Some(
                (s.skill_name@, s.skill_path@),
            )
        }),
{
}

} // verus!
