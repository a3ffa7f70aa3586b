//! Workflow orchestration: sequential chains of HTTP steps.
//!
//! The engine holds the workflows and decides, step by step, what the outcome
//! of each call means for the step and for the workflow; the caller performs
//! the calls. A step that fails either stops the workflow, is skipped (the
//! workflow then still ends `Failed`), or is retried up to a given number of
//! times.
use vstd::prelude::*;
use crate::store::VecMap;

verus! {

#[derive(Clone, Copy, Debug, PartialEq, Eq, Structural)]
pub enum WorkflowStatus {
    Pending,
    Running,
    Completed,
    Failed,
    Cancelled,
}

#[derive(Clone, Copy, Debug, PartialEq, Eq, Structural)]
pub enum StepStatus {
    Pending,
    Running,
    Success,
    Failed,
    Skipped,
}

#[derive(Clone, Copy, Debug, PartialEq, Eq, Structural)]
pub enum FailureAction {
    /// End the workflow as failed.
    Stop,
    /// Mark the step skipped and go on; the workflow ends failed.
    Skip,
    /// Try the call again, at most this many times (at least once).
    Retry(u32),
}

/// One HTTP call of a workflow.
pub struct WorkflowStep {
    pub name: String,
    pub url: String,
    pub method: String,
    pub body: Option<String>,
    pub timeout_secs: u64,
    pub on_failure: FailureAction,
    pub status: StepStatus,
    pub response_status: Option<u16>,
    /// Duration of the last call, in microseconds.
    pub duration_micros: u64,
}

/// A workflow and its progress.
pub struct Workflow {
    pub id: String,
    pub name: String,
    pub steps: Vec<WorkflowStep>,
    pub status: WorkflowStatus,
    pub current_step: usize,
    pub created_at: u64,
    pub finished_at: Option<u64>,
    pub error: Option<String>,
}

/// The outcome of one call, as the caller observed it.
pub enum CallOutcome {
    /// A response arrived; `status_text` is the status as displayed
    /// (code and reason phrase).
    Response { status: u16, status_text: String, duration_micros: u64 },
    /// No response: connection error, timeout, and the like.
    Error { message: String, duration_micros: u64 },
}

/// What the caller does next after a step was recorded.
#[derive(Debug)]
pub enum StepVerdict {
    /// Go on with the next step.
    Continue,
    /// Call the step again, up to this many times, waiting 100 ms times the
    /// attempt number before each.
    Retry { attempts: u32 },
    /// The workflow ended failed with this error.
    Stop(String),
}

/// The abstract form of a verdict.
pub enum Verdict {
    Continue,
    Retry(u32),
    Stop(Seq<char>),
}

impl StepVerdict {
    pub open spec fn view(&self) -> Verdict {
        match self {
            StepVerdict::Continue => Verdict::Continue,
            StepVerdict::Retry { attempts } => Verdict::Retry(*attempts),
            StepVerdict::Stop(m) => Verdict::Stop(m@),
        }
    }
}

/// The progress of a step: status, response status, duration.
pub open spec fn step_view(s: WorkflowStep) -> (StepStatus, Option<u16>, u64) {
    (s.status, s.response_status, s.duration_micros)
}

/// Whether a status code is a success (2xx).
pub open spec fn is_success(status: u16) -> bool {
    200 <= status < 300
}

/// Whether a status code is a success (2xx).
pub fn success_status(status: u16) -> (b: bool)
    ensures
        b == is_success(status),
{
    200 <= status && status < 300
}

/// The error text for a step answered with a non-success status.
pub open spec fn http_failure_text(step: Seq<char>, status_text: Seq<char>) -> Seq<char> {
    "Step "@ + step + " failed: HTTP "@ + status_text
}

/// The error text for a step whose call did not get a response.
pub open spec fn call_error_text(step: Seq<char>, message: Seq<char>) -> Seq<char> {
    "Step "@ + step + " error: "@ + message
}

/// The error text for a step whose retries were exhausted.
pub open spec fn retries_failed_text(step: Seq<char>, attempts: u32, status: u16) -> Seq<char> {
    "Step "@ + step + " failed after "@ + crate::fmt::decimal(attempts as nat) + " retries: last HTTP "@
        + crate::fmt::decimal(status as nat)
}

/// Number of retries for a retry budget: at least one.
pub open spec fn retry_attempts(max: u32) -> u32 {
    if max < 1 {
        1
    } else {
        max
    }
}

/// For an outcome of a step with the given failure action: the step's new
/// status, the verdict, and the failure to remember when the step is skipped.
pub open spec fn judge(action: FailureAction, name: Seq<char>, outcome: CallOutcome) -> (
    StepStatus,
    Verdict,
    Option<Seq<char>>,
) {
    match outcome {
        CallOutcome::Response { status, status_text, .. } => if is_success(status) {
            (StepStatus::Success, Verdict::Continue, None)
        } else {
            let msg = http_failure_text(name, status_text@);
            match action {
                FailureAction::Stop => (StepStatus::Failed, Verdict::Stop(msg), None),
                FailureAction::Skip => (StepStatus::Skipped, Verdict::Continue, Some(msg)),
                FailureAction::Retry(max) => (StepStatus::Failed, Verdict::Retry(retry_attempts(max)), None),
            }
        },
        CallOutcome::Error { message, .. } => {
            let msg = call_error_text(name, message@);
            match action {
                FailureAction::Skip => (StepStatus::Skipped, Verdict::Continue, Some(msg)),
                _ => (StepStatus::Failed, Verdict::Stop(msg), None),
            }
        },
    }
}

/// The response status an outcome records, if any.
pub open spec fn outcome_status(o: CallOutcome) -> Option<u16> {
    match o {
        CallOutcome::Response { status, .. } => Some(status),
        CallOutcome::Error { .. } => None,
    }
}

/// The duration an outcome records.
pub open spec fn outcome_duration(o: CallOutcome) -> u64 {
    match o {
        CallOutcome::Response { duration_micros, .. } => duration_micros,
        CallOutcome::Error { duration_micros, .. } => duration_micros,
    }
}

/// The part of a step that running it does not change.
pub open spec fn step_plan(s: WorkflowStep) -> (Seq<char>, Seq<char>, Seq<char>, Option<Seq<char>>, u64, FailureAction) {
    (
        s.name@,
        s.url@,
        s.method@,
        match s.body {
            Some(b) => Some(b@),
            None => None,
        },
        s.timeout_secs,
        s.on_failure,
    )
}

/// The part of a workflow that running it does not change.
pub open spec fn same_plan(a: Workflow, b: Workflow) -> bool {
    &&& a.id@ == b.id@
    &&& a.name@ == b.name@
    &&& a.created_at == b.created_at
    &&& a.steps@.len() == b.steps@.len()
    &&& forall|i: int| 0 <= i < a.steps@.len() ==> step_plan(#[trigger] a.steps@[i]) == step_plan(b.steps@[i])
}

/// The text of an optional error.
pub open spec fn err_text(e: Option<String>) -> Option<Seq<char>> {
    match e {
        Some(s) => Some(s@),
        None => None,
    }
}

fn failure_message(step: &str, middle: &str, detail: &str) -> (m: String)
    ensures
        m@ == "Step "@ + step@ + middle@ + detail@,
{
    let a = crate::text::chars_of("Step ");
    let b = crate::text::chars_of(step);
    let c = crate::text::chars_of(middle);
    let d = crate::text::chars_of(detail);
    let t = crate::text::concat(a.as_slice(), b.as_slice());
    let t = crate::text::concat(t.as_slice(), c.as_slice());
    let t = crate::text::concat(t.as_slice(), d.as_slice());
    crate::text::string_of(t.as_slice())
}

fn retries_message(step: &str, attempts: u32, status: u16) -> (m: String)
    ensures
        m@ == retries_failed_text(step@, attempts, status),
{
    let a = crate::text::chars_of("Step ");
    let b = crate::text::chars_of(step);
    let c = crate::text::chars_of(" failed after ");
    let d = crate::fmt::decimal_text(attempts as u64);
    let e = crate::text::chars_of(" retries: last HTTP ");
    let f = crate::fmt::decimal_text(status as u64);
    let t = crate::text::concat(a.as_slice(), b.as_slice());
    let t = crate::text::concat(t.as_slice(), c.as_slice());
    let t = crate::text::concat(t.as_slice(), d.as_slice());
    let t = crate::text::concat(t.as_slice(), e.as_slice());
    let t = crate::text::concat(t.as_slice(), f.as_slice());
    crate::text::string_of(t.as_slice())
}

/// Keeps the workflows and the progress of their runs.
pub struct WorkflowEngine {
    workflows: VecMap<Vec<char>, Workflow>,
}

impl WorkflowEngine {
    /// The workflows, by id.
    pub closed spec fn workflows(&self) -> Map<Seq<char>, Workflow> {
        self.workflows.map()
    }

    /// Ids in creation order.
    pub closed spec fn order(&self) -> Seq<Seq<char>> {
        self.workflows.keys()
    }

    pub fn new() -> (e: Self)
        ensures
            e.workflows() == Map::<Seq<char>, Workflow>::empty(),
    {
        WorkflowEngine { workflows: VecMap::new() }
    }

    /// Adds a pending workflow under `id`, created at `now`.
    pub fn create_with_id(&mut self, id: String, name: String, steps: Vec<WorkflowStep>, now: u64)
        ensures
            final(self).workflows().dom() == old(self).workflows().dom().insert(id@),
            forall|k: Seq<char>| k != id@ && #[trigger] old(self).workflows().contains_key(k) ==> final(self).workflows()[k] == old(self).workflows()[k],
            ({
                let w = final(self).workflows()[id@];
                &&& w.id@ == id@
                &&& w.name@ == name@
                &&& w.steps@ == steps@
                &&& w.status == WorkflowStatus::Pending
                &&& w.current_step == 0
                &&& w.created_at == now
                &&& w.finished_at is None
                &&& w.error is None
            }),
    {
        let key = crate::text::chars_of(id.as_str());
        let wf = Workflow {
            id,
            name,
            steps,
            status: WorkflowStatus::Pending,
            current_step: 0,
            created_at: now,
            finished_at: None,
            error: None,
        };
        self.workflows.insert(key, wf);
    }

    /// Adds a pending workflow under a fresh random id and returns the id;
    /// whatever id and reading were drawn, the workflow is the one
    /// `create_with_id` adds.
    pub fn create(&mut self, name: String, steps: Vec<WorkflowStep>) -> (id: String)
        ensures
            id@.len() == 36,
            final(self).workflows().dom() == old(self).workflows().dom().insert(id@),
            forall|k: Seq<char>| k != id@ && #[trigger] old(self).workflows().contains_key(k) ==> final(self).workflows()[k] == old(self).workflows()[k],
            ({
                let w = final(self).workflows()[id@];
                &&& w.id@ == id@
                &&& w.name@ == name@
                &&& w.steps@ == steps@
                &&& w.status == WorkflowStatus::Pending
                &&& w.current_step == 0
                &&& w.finished_at is None
                &&& w.error is None
            }),
    {
        let id = crate::ids::new_id();
        let now = crate::clock::now_secs();
        let copy = crate::text::string_of(crate::text::chars_of(id.as_str()).as_slice());
        self.create_with_id(copy, name, steps, now);
        id
    }

    /// The workflow with this id.
    pub fn get(&self, id: &str) -> (r: Option<&Workflow>)
        ensures
            match r {
                Some(w) => self.workflows().contains_key(id@) && *w == self.workflows()[id@],
                None => !self.workflows().contains_key(id@),
            },
    {
        let key = crate::text::chars_of(id);
        self.workflows.get(&key)
    }

    /// Number of workflows.
    pub fn count(&self) -> (n: usize)
        ensures
            n == self.order().len(),
    {
        self.workflows.len()
    }

    /// The workflow at position `i` in creation order.
    pub fn at(&self, i: usize) -> (w: &Workflow)
        requires
            i < self.order().len(),
        ensures
            self.workflows().contains_key(self.order()[i as int]),
            *w == self.workflows()[self.order()[i as int]],
    {
        self.workflows.entry_at(i).1
    }

    /// Starts a run: the workflow becomes `Running`; the number of its steps
    /// is returned. An unknown id is refused.
    pub fn start(&mut self, id: &str) -> (r: Result<usize, String>)
        ensures
            match r {
                Ok(n) => {
                    &&& old(self).workflows().contains_key(id@)
                    &&& n == old(self).workflows()[id@].steps@.len()
                    &&& final(self).workflows().dom() == old(self).workflows().dom()
                    &&& same_plan(final(self).workflows()[id@], old(self).workflows()[id@])
                    &&& final(self).workflows()[id@].status == WorkflowStatus::Running
                    &&& final(self).workflows()[id@].steps@.map_values(|s: WorkflowStep| step_view(s))
                        == old(self).workflows()[id@].steps@.map_values(|s: WorkflowStep| step_view(s))
                    &&& forall|k: Seq<char>| k != id@ && #[trigger] old(self).workflows().contains_key(k) ==> final(self).workflows()[k] == old(self).workflows()[k]
                },
                Err(e) => {
                    &&& !old(self).workflows().contains_key(id@)
                    &&& e@ == "Workflow not found"@
                    &&& final(self).workflows() == old(self).workflows()
                },
            },
    {
        let key = crate::text::chars_of(id);
        match self.workflows.remove(&key) {
            Some(mut wf) => {
                wf.status = WorkflowStatus::Running;
                let n = wf.steps.len();
                let ghost w0 = wf;
                self.workflows.insert(key, wf);
                proof {
                    assert(self.workflows.map().dom() =~= old(self).workflows().dom());
                    assert(w0.steps@.map_values(|s: WorkflowStep| step_view(s)) =~= old(self).workflows()[id@].steps@.map_values(|s: WorkflowStep| step_view(s)));
                }
                Ok(n)
            },
            None => {
                proof {
                    assert(self.workflows.map() =~= old(self).workflows());
                }
                Err(crate::text::string_of(crate::text::chars_of("Workflow not found").as_slice()))
            },
        }
    }

    /// Records the outcome of the call of step `i`: the step's status,
    /// response status and duration are set, the workflow's current step
    /// becomes `i`, and a stop ends the workflow `Failed` at `now` with the
    /// error. The failure of a skipped step is remembered in `first_failure`
    /// unless one is remembered already.
    pub fn record_step(&mut self, id: &str, i: usize, outcome: CallOutcome, first_failure: &mut Option<String>, now: u64) -> (v: StepVerdict)
        requires
            old(self).workflows().contains_key(id@) ==> i < old(self).workflows()[id@].steps@.len(),
        ensures
            !old(self).workflows().contains_key(id@) ==> {
                &&& v@ == Verdict::Stop("Workflow disappeared during execution"@)
                &&& final(self).workflows() == old(self).workflows()
                &&& *final(first_failure) == *old(first_failure)
            },
            old(self).workflows().contains_key(id@) ==> {
                let w0 = old(self).workflows()[id@];
                let w1 = final(self).workflows()[id@];
                let (st, verdict, remembered) = judge(w0.steps@[i as int].on_failure, w0.steps@[i as int].name@, outcome);
                &&& v@ == verdict
                &&& final(self).workflows().dom() == old(self).workflows().dom()
                &&& forall|k: Seq<char>| k != id@ && #[trigger] old(self).workflows().contains_key(k) ==> final(self).workflows()[k] == old(self).workflows()[k]
                &&& same_plan(w1, w0)
                &&& w1.current_step == i
                &&& w1.steps@[i as int].status == st
                &&& w1.steps@[i as int].duration_micros == outcome_duration(outcome)
                &&& w1.steps@[i as int].response_status == (match outcome_status(outcome) {
                    Some(c) => Some(c),
                    None => w0.steps@[i as int].response_status,
                })
                &&& forall|j: int| 0 <= j < w0.steps@.len() && j != i ==> step_view(#[trigger] w1.steps@[j]) == step_view(w0.steps@[j])
                &&& (verdict matches Verdict::Stop(m) ==> {
                    &&& w1.status == WorkflowStatus::Failed
                    &&& err_text(w1.error) == Some(m)
                    &&& w1.finished_at == Some(now)
                })
                &&& (!(verdict is Stop) ==> {
                    &&& w1.status == w0.status
                    &&& err_text(w1.error) == err_text(w0.error)
                    &&& w1.finished_at == w0.finished_at
                })
                &&& err_text(*final(first_failure)) == (match (err_text(*old(first_failure)), remembered) {
                    (None, Some(m)) => Some(m),
                    (f, _) => f,
                })
            },
    {
        let key = crate::text::chars_of(id);
        let mut wf = match self.workflows.remove(&key) {
            Some(w) => w,
            None => {
                proof {
                    assert(self.workflows.map() =~= old(self).workflows());
                }
                return StepVerdict::Stop(crate::text::string_of(crate::text::chars_of("Workflow disappeared during execution").as_slice()));
            },
        };
        let ghost w0 = wf;
        wf.current_step = i;
        let mut step = wf.steps.remove(i);
        let ghost s0 = step;
        let verdict = match outcome {
            CallOutcome::Response { status, status_text, duration_micros } => {
                step.response_status = Some(status);
                step.duration_micros = duration_micros;
                if status >= 200 && status < 300 {
                    step.status = StepStatus::Success;
                    StepVerdict::Continue
                } else {
                    let msg = failure_message(step.name.as_str(), " failed: HTTP ", status_text.as_str());
                    match step.on_failure {
                        FailureAction::Stop => {
                            step.status = StepStatus::Failed;
                            StepVerdict::Stop(msg)
                        },
                        FailureAction::Skip => {
                            step.status = StepStatus::Skipped;
                            if first_failure.is_none() {
                                *first_failure = Some(msg);
                            }
                            StepVerdict::Continue
                        },
                        FailureAction::Retry(max) => {
                            step.status = StepStatus::Failed;
                            StepVerdict::Retry { attempts: if max < 1 { 1 } else { max } }
                        },
                    }
                }
            },
            CallOutcome::Error { message, duration_micros } => {
                step.status = StepStatus::Failed;
                step.duration_micros = duration_micros;
                let msg = failure_message(step.name.as_str(), " error: ", message.as_str());
                match step.on_failure {
                    FailureAction::Skip => {
                        step.status = StepStatus::Skipped;
                        if first_failure.is_none() {
                            *first_failure = Some(msg);
                        }
                        StepVerdict::Continue
                    },
                    _ => StepVerdict::Stop(msg),
                }
            },
        };
        wf.steps.insert(i, step);
        if let StepVerdict::Stop(m) = &verdict {
            wf.status = WorkflowStatus::Failed;
            wf.error = Some(crate::text::string_of(crate::text::chars_of(m.as_str()).as_slice()));
            wf.finished_at = Some(now);
        }
        let ghost w1 = wf;
        self.workflows.insert(key, wf);
        proof {
            assert(self.workflows.map().dom() =~= old(self).workflows().dom());
            assert forall|j: int| 0 <= j < w0.steps@.len() implies step_plan(#[trigger] w1.steps@[j]) == step_plan(w0.steps@[j]) by {
                if j < i {
                    assert(w1.steps@[j] == w0.steps@[j]);
                } else if j > i {
                    assert(w1.steps@[j] == w0.steps@[j]);
                }
            }
            assert forall|j: int| 0 <= j < w0.steps@.len() && j != i implies step_view(#[trigger] w1.steps@[j]) == step_view(w0.steps@[j]) by {
                assert(w1.steps@[j] == w0.steps@[j]);
            }
        }
        verdict
    }

    /// Records the end of the retries of step `i`: on success the step is a
    /// success; otherwise it failed, and the workflow ends `Failed` at `now`
    /// with the error, which is also returned.
    pub fn record_retries(&mut self, id: &str, i: usize, succeeded: bool, last_status: u16, last_duration_micros: u64, attempts: u32, now: u64) -> (r: Result<(), String>)
        requires
            old(self).workflows().contains_key(id@) ==> i < old(self).workflows()[id@].steps@.len(),
        ensures
            !old(self).workflows().contains_key(id@) ==> {
                &&& r matches Err(e) && e@ == "Workflow disappeared during retry"@
                &&& final(self).workflows() == old(self).workflows()
            },
            old(self).workflows().contains_key(id@) ==> {
                let w0 = old(self).workflows()[id@];
                let w1 = final(self).workflows()[id@];
                let msg = retries_failed_text(w0.steps@[i as int].name@, attempts, last_status);
                &&& final(self).workflows().dom() == old(self).workflows().dom()
                &&& forall|k: Seq<char>| k != id@ && #[trigger] old(self).workflows().contains_key(k) ==> final(self).workflows()[k] == old(self).workflows()[k]
                &&& same_plan(w1, w0)
                &&& w1.current_step == w0.current_step
                &&& w1.steps@[i as int].duration_micros == last_duration_micros
                &&& w1.steps@[i as int].response_status == Some(last_status)
                &&& forall|j: int| 0 <= j < w0.steps@.len() && j != i ==> step_view(#[trigger] w1.steps@[j]) == step_view(w0.steps@[j])
                &&& succeeded ==> {
                    &&& r is Ok
                    &&& w1.steps@[i as int].status == StepStatus::Success
                    &&& w1.status == w0.status
                    &&& err_text(w1.error) == err_text(w0.error)
                    &&& w1.finished_at == w0.finished_at
                }
                &&& !succeeded ==> {
                    &&& r matches Err(e) && e@ == msg
                    &&& w1.steps@[i as int].status == StepStatus::Failed
                    &&& w1.status == WorkflowStatus::Failed
                    &&& err_text(w1.error) == Some(msg)
                    &&& w1.finished_at == Some(now)
                }
            },
    {
        let key = crate::text::chars_of(id);
        let mut wf = match self.workflows.remove(&key) {
            Some(w) => w,
            None => {
                proof {
                    assert(self.workflows.map() =~= old(self).workflows());
                }
                return Err(crate::text::string_of(crate::text::chars_of("Workflow disappeared during retry").as_slice()));
            },
        };
        let ghost w0 = wf;
        let mut step = wf.steps.remove(i);
        step.duration_micros = last_duration_micros;
        step.response_status = Some(last_status);
        let r = if succeeded {
            step.status = StepStatus::Success;
            Ok(())
        } else {
            step.status = StepStatus::Failed;
            let msg = retries_message(step.name.as_str(), attempts, last_status);
            wf.status = WorkflowStatus::Failed;
            wf.error = Some(crate::text::string_of(crate::text::chars_of(msg.as_str()).as_slice()));
            wf.finished_at = Some(now);
            Err(msg)
        };
        wf.steps.insert(i, step);
        let ghost w1 = wf;
        self.workflows.insert(key, wf);
        proof {
            assert(self.workflows.map().dom() =~= old(self).workflows().dom());
            assert forall|j: int| 0 <= j < w0.steps@.len() implies step_plan(#[trigger] w1.steps@[j]) == step_plan(w0.steps@[j]) by {
                if j != i {
                    assert(w1.steps@[j] == w0.steps@[j]);
                }
            }
            assert forall|j: int| 0 <= j < w0.steps@.len() && j != i implies step_view(#[trigger] w1.steps@[j]) == step_view(w0.steps@[j]) by {
                assert(w1.steps@[j] == w0.steps@[j]);
            }
        }
        r
    }

    /// Ends a run that went through all its steps at `now`: `Failed` with the
    /// remembered failure if a step was skipped, `Completed` otherwise.
    pub fn finish(&mut self, id: &str, first_failure: Option<String>, now: u64)
        ensures
            final(self).workflows().dom() == old(self).workflows().dom(),
            forall|k: Seq<char>| k != id@ && #[trigger] old(self).workflows().contains_key(k) ==> final(self).workflows()[k] == old(self).workflows()[k],
            old(self).workflows().contains_key(id@) ==> {
                let w0 = old(self).workflows()[id@];
                let w1 = final(self).workflows()[id@];
                &&& same_plan(w1, w0)
                &&& w1.steps@.map_values(|s: WorkflowStep| step_view(s)) == w0.steps@.map_values(|s: WorkflowStep| step_view(s))
                &&& w1.current_step == w0.current_step
                &&& w1.finished_at == Some(now)
                &&& match first_failure {
                    Some(e) => w1.status == WorkflowStatus::Failed && err_text(w1.error) == Some(e@),
                    None => w1.status == WorkflowStatus::Completed && err_text(w1.error) == err_text(w0.error),
                }
            },
    {
        let key = crate::text::chars_of(id);
        match self.workflows.remove(&key) {
            Some(mut wf) => {
                match first_failure {
                    Some(e) => {
                        wf.status = WorkflowStatus::Failed;
                        wf.error = Some(e);
                    },
                    None => {
                        wf.status = WorkflowStatus::Completed;
                    },
                }
                wf.finished_at = Some(now);
                let ghost w1 = wf;
                self.workflows.insert(key, wf);
                proof {
                    assert(self.workflows.map().dom() =~= old(self).workflows().dom());
                    assert(w1.steps@.map_values(|s: WorkflowStep| step_view(s)) =~= old(self).workflows()[id@].steps@.map_values(|s: WorkflowStep| step_view(s)));
                }
            },
            None => {
                proof {
                    assert(self.workflows.map() =~= old(self).workflows());
                }
            },
        }
    }
}


/// Whether an outcome is a 2xx response.
pub open spec fn succeeded(o: CallOutcome) -> bool {
    o matches CallOutcome::Response { status, .. } && is_success(status)
}

/// The failure remembered after running steps named `names` with these
/// outcomes when every step skips on failure: the first one.
pub open spec fn remembered_under_skip(names: Seq<Seq<char>>, outcomes: Seq<CallOutcome>) -> Option<Seq<char>>
    decreases outcomes.len(),
{
    if outcomes.len() == 0 || names.len() < outcomes.len() {
        None
    } else {
        match remembered_under_skip(names, outcomes.drop_last()) {
            Some(m) => Some(m),
            None => judge(FailureAction::Skip, names[outcomes.len() - 1], outcomes.last()).2,
        }
    }
}

/// A run whose steps all skip on failure never stops early: every step is
/// judged `Continue` (a 2xx step a success, any other skipped), and the run
/// ends with a failure remembered exactly when some step did not get a 2xx
/// answer, so `finish` marks it `Completed` exactly when all steps did.
pub proof fn law_skip_run(names: Seq<Seq<char>>, outcomes: Seq<CallOutcome>)
    requires
        names.len() == outcomes.len(),
    ensures
        forall|j: int| 0 <= j < outcomes.len() ==> (#[trigger] judge(FailureAction::Skip, names[j], outcomes[j])).1 == Verdict::Continue,
        forall|j: int| 0 <= j < outcomes.len() ==> (judge(FailureAction::Skip, names[j], #[trigger] outcomes[j]).0 == (if succeeded(outcomes[j]) {
            StepStatus::Success
        } else {
            StepStatus::Skipped
        })),
        remembered_under_skip(names, outcomes) is None <==> forall|j: int| 0 <= j < outcomes.len() ==> succeeded(#[trigger] outcomes[j]),
    decreases outcomes.len(),
{
    if outcomes.len() > 0 {
        let o = outcomes.drop_last();
        let n = names.drop_last();
        law_skip_run(n, o);
        lemma_remembered_prefix(names, o);
        assert forall|j: int| 0 <= j < o.len() implies succeeded(#[trigger] o[j]) == succeeded(outcomes[j]) by {}
        if remembered_under_skip(names, outcomes) is None {
            assert forall|j: int| 0 <= j < outcomes.len() implies succeeded(#[trigger] outcomes[j]) by {
                if j < o.len() {
                    assert(succeeded(o[j]));
                }
            }
        } else {
            if forall|j: int| 0 <= j < outcomes.len() ==> succeeded(#[trigger] outcomes[j]) {
                assert forall|j: int| 0 <= j < o.len() implies succeeded(#[trigger] o[j]) by {
                    assert(succeeded(outcomes[j]));
                }
                assert(succeeded(outcomes[outcomes.len() - 1]));
            }
        }
    }
}

proof fn lemma_remembered_prefix(names: Seq<Seq<char>>, o: Seq<CallOutcome>)
    requires
        o.len() + 1 == names.len(),
    ensures
        remembered_under_skip(names, o) == remembered_under_skip(names.drop_last(), o),
    decreases o.len(),
{
    if o.len() > 0 {
        lemma_remembered_prefix_any(names, names.drop_last(), o);
    }
}

proof fn lemma_remembered_prefix_any(a: Seq<Seq<char>>, b: Seq<Seq<char>>, o: Seq<CallOutcome>)
    requires
        o.len() <= b.len() <= a.len(),
        forall|j: int| 0 <= j < b.len() ==> a[j] == b[j],
    ensures
        remembered_under_skip(a, o) == remembered_under_skip(b, o),
    decreases o.len(),
{
    if o.len() > 0 {
        lemma_remembered_prefix_any(a, b, o.drop_last());
    }
}

} // verus!
