use vstd::prelude::*;
use vstd::string::StringExecFns;

use crate::queue::{
    has_pending, holds_id, is_first_pending, keeps_terminal, with_status,
    QueueManager, TaskStatus, VideoTask,
};
use crate::text::{decimal, decimal_text};

verus! {

/// A report from the worker to whoever watches the queue.
#[derive(Debug, Clone)]
pub enum UpdateMessage {
    TaskStarted(usize),
    TaskCompleted(usize),
    TaskFailed(usize, String),
    TaskCancelled(usize),
    WorkerFinished,
}

/// How one supervised run of the external program ended.
#[derive(Debug, Clone)]
pub enum TaskOutcome {
    Succeeded,
    ForceStopped,
    Failed(String),
}

/// What the supervisor saw when it asked whether the process has exited.
#[derive(Debug, Clone)]
pub enum ProcessPoll {
    /// The process exited; `status` is its exit status as text.
    Exited { success: bool, status: String },
    StillRunning,
    /// Asking for the exit status failed; `error` says why.
    WaitError { error: String },
}

/// What the supervisor does next.
#[derive(Debug, Clone)]
pub enum SupervisorStep {
    /// Wait a short interval and poll again.
    KeepWaiting,
    /// Kill the process; the task is cancelled.
    KillProcess,
    /// The run is over with this outcome.
    Finish(TaskOutcome),
}

/// Some task is running.
pub open spec fn has_running(tasks: Seq<VideoTask>) -> bool {
    exists|i: int| 0 <= i < tasks.len() && (tasks[i].status is Running)
}

/// `"Task <id> failed"`, the start of every failure message.
pub open spec fn failure_head(id: usize) -> Seq<char> {
    "Task "@ + decimal_text(id as nat) + " failed"@
}

/// The message of a missing recipe, given the path as it is shown.
pub open spec fn missing_recipe_text(id: usize, shown_path: Seq<char>) -> Seq<char> {
    failure_head(id) + ": Recipe file not found at path: "@ + shown_path
}

/// What `{:?}` writes for a string: the text in double quotes, with quotes,
/// backslashes and control characters escaped.
pub uninterp spec fn debug_text(s: Seq<char>) -> Seq<char>;

/// Relies on `<str as Debug>::fmt`, reached through `format!("{:?}")`: the
/// quoted, escaped form of the string, which depends on the string alone.
#[verifier::external_body]
fn debug_quoted(s: &str) -> (r: String)
    ensures
        r@ == debug_text(s@),
{
    format!("{:?}", s)
}

pub open spec fn spawn_failure_text(id: usize, error: Seq<char>) -> Seq<char> {
    failure_head(id) + " to spawn: "@ + error + ". Is 'smoothie-rs' in PATH?"@
}

pub open spec fn exit_failure_text(id: usize, status: Seq<char>) -> Seq<char> {
    failure_head(id) + " with status: "@ + status
}

pub open spec fn wait_failure_text(id: usize, error: Seq<char>) -> Seq<char> {
    failure_head(id) + " while waiting: "@ + error
}

fn failure_message(id: usize, middle: &str, detail: &str) -> (r: String)
    ensures
        r@ == failure_head(id) + middle@ + detail@,
{
    let mut s = String::from_str("Task ");
    let n = decimal(id);
    s.append(n.as_str());
    s.append(" failed");
    s.append(middle);
    s.append(detail);
    s
}

/// The message of a task whose recipe file is missing, with the path already
/// in the form it is shown in.
pub fn recipe_not_found_message(id: usize, shown_path: &str) -> (r: String)
    ensures
        r@ == missing_recipe_text(id, shown_path@),
{
    failure_message(id, ": Recipe file not found at path: ", shown_path)
}

/// The message of a task whose recipe file is missing; the path is shown
/// quoted and escaped, as `{:?}` writes it.
pub fn missing_recipe_message(id: usize, recipe_path: &str) -> (r: String)
    ensures
        r@ == missing_recipe_text(id, debug_text(recipe_path@)),
{
    let shown = debug_quoted(recipe_path);
    recipe_not_found_message(id, shown.as_str())
}

/// The outcome of a task whose process could not be started.
pub fn spawn_failure(id: usize, error: &str) -> (r: TaskOutcome)
    ensures
        r matches TaskOutcome::Failed(m) && m@ == spawn_failure_text(id, error@),
{
    let mut m = failure_message(id, " to spawn: ", error);
    m.append(". Is 'smoothie-rs' in PATH?");
    TaskOutcome::Failed(m)
}

/// The six arguments of the external program: the recipe, the input, and the
/// output directory, each after its flag.
pub open spec fn launch_args(task: VideoTask, output_dir: Seq<char>) -> Seq<Seq<char>> {
    seq!["--recipe"@, task.recipe_path@, "--input"@, task.input_path@, "--outdir"@, output_dir]
}

/// Decides whether a task may be launched: with its recipe file missing it fails
/// at once with a message that names the path, quoted, else the result holds
/// the arguments to start the program with. `output_dir` is the task's output
/// directory as resolved at launch time.
pub fn prepare_launch(task: &VideoTask, recipe_exists: bool, output_dir: &str) -> (r: Result<
    Vec<String>,
    String,
>)
    ensures
        r is Err <==> !recipe_exists,
        r matches Err(m) ==> m@ == missing_recipe_text(task.id, debug_text(task.recipe_path@)),
        r matches Ok(a) ==> a@.map_values(|s: String| s@) == launch_args(*task, output_dir@),
{
    if !recipe_exists {
        return Err(missing_recipe_message(task.id, task.recipe_path.as_str()));
    }
    let mut args: Vec<String> = Vec::new();
    args.push(String::from_str("--recipe"));
    args.push(task.recipe_path.clone());
    args.push(String::from_str("--input"));
    args.push(task.input_path.clone());
    args.push(String::from_str("--outdir"));
    args.push(String::from_str(output_dir));
    assert(args@.map_values(|s: String| s@) =~= launch_args(*task, output_dir@));
    Ok(args)
}

/// One turn of the supervision loop. A force stop wins over whatever the poll
/// saw; otherwise an exit ends the run, successfully or with the exit status, a
/// failed poll ends it with the error, and a running process is polled again.
pub fn supervise_step(task_id: usize, force_stop_requested: bool, poll: ProcessPoll) -> (r:
    SupervisorStep)
    ensures
        force_stop_requested ==> r is KillProcess,
        !force_stop_requested ==> match poll {
            ProcessPoll::StillRunning => r is KeepWaiting,
            ProcessPoll::Exited { success, status } => if success {
                r matches SupervisorStep::Finish(TaskOutcome::Succeeded)
            } else {
                r matches SupervisorStep::Finish(TaskOutcome::Failed(m)) && m@
                    == exit_failure_text(task_id, status@)
            },
            ProcessPoll::WaitError { error } => r matches SupervisorStep::Finish(
                TaskOutcome::Failed(m),
            ) && m@ == wait_failure_text(task_id, error@),
        },
{
    if force_stop_requested {
        return SupervisorStep::KillProcess;
    }
    match poll {
        ProcessPoll::StillRunning => SupervisorStep::KeepWaiting,
        ProcessPoll::Exited { success, status } => {
            if success {
                SupervisorStep::Finish(TaskOutcome::Succeeded)
            } else {
                SupervisorStep::Finish(
                    TaskOutcome::Failed(failure_message(task_id, " with status: ", status.as_str())),
                )
            }
        },
        ProcessPoll::WaitError { error } => SupervisorStep::Finish(
            TaskOutcome::Failed(failure_message(task_id, " while waiting: ", error.as_str())),
        ),
    }
}


/// The status that an outcome gives the task.
pub open spec fn outcome_status(outcome: TaskOutcome) -> TaskStatus {
    match outcome {
        TaskOutcome::Succeeded => TaskStatus::Completed,
        TaskOutcome::ForceStopped => TaskStatus::Cancelled,
        TaskOutcome::Failed(m) => TaskStatus::Failed(m),
    }
}

/// The report that goes with an outcome of the task `id`.
pub open spec fn reports_outcome(msg: UpdateMessage, id: usize, outcome: TaskOutcome) -> bool {
    match outcome {
        TaskOutcome::Succeeded => msg == UpdateMessage::TaskCompleted(id),
        TaskOutcome::ForceStopped => msg == UpdateMessage::TaskCancelled(id),
        TaskOutcome::Failed(m) => msg matches UpdateMessage::TaskFailed(j, n) && j == id && n@
            == m@,
    }
}

/// The first half of a worker turn, taken in one critical section: unless a
/// stop was requested, the earliest pending task is marked running, any force
/// stop left from an earlier task is cleared, and a copy of the task is returned
/// for the supervisor. With no pending task, or while another task runs, nothing
/// is dispatched.
pub fn start_next_task(q: &mut QueueManager) -> (r: Option<VideoTask>)
    requires
        old(q).wf(),
    ensures
        final(q).wf(),
        final(q).stop_requested == old(q).stop_requested,
        old(q).stop_requested ==> r is None && *final(q) == *old(q),
        !old(q).stop_requested && (!has_pending(old(q).tasks@) || has_running(old(q).tasks@))
            ==> {
            &&& r is None
            &&& final(q).tasks@ == old(q).tasks@
            &&& final(q).force_stop_requested == old(q).force_stop_requested
        },
        !old(q).stop_requested && !has_pending(old(q).tasks@) ==> final(q).next_task_index
            == old(q).tasks@.len(),
        !old(q).stop_requested && has_pending(old(q).tasks@) ==> is_first_pending(
            old(q).tasks@,
            final(q).next_task_index as int,
        ),
        !old(q).stop_requested && has_pending(old(q).tasks@) && !has_running(old(q).tasks@)
            ==> {
            let i = final(q).next_task_index as int;
            &&& r is Some
            &&& is_first_pending(old(q).tasks@, i)
            &&& r.unwrap().same_as(old(q).tasks@[i])
            &&& final(q).tasks@ == with_status(old(q).tasks@, i, TaskStatus::Running)
            &&& !final(q).force_stop_requested
        },
{
    if q.is_stop_requested() {
        return None;
    }
    let snapshot = match q.next_pending_task() {
        Some(t) => t.duplicate(),
        None => {
            return None;
        },
    };
    let ghost picked = q.tasks@;
    let ghost i = q.next_task_index as int;
    assert(is_first_pending(old(q).tasks@, i));
    assert(picked == old(q).tasks@);
    assert(holds_id(picked, i, snapshot.id));
    proof {
        if has_running(picked) {
            let k = choose|k: int| 0 <= k < picked.len() && (picked[k].status is Running);
            assert(k != i);
            assert(!QueueManager::may_run(picked, i));
        } else {
            assert(QueueManager::may_run(picked, i));
        }
    }
    q.mark_as_running(snapshot.id);
    if !q.tasks[q.next_task_index].status.is_running() {
        return None;
    }
    q.clear_force_stop();
    Some(snapshot)
}

/// The second half of a worker turn: records the outcome of the task `task_id`
/// in the queue and returns the report to send, and whether the worker goes on
/// (it stops once a stop was requested).
pub fn finish_task(q: &mut QueueManager, task_id: usize, outcome: TaskOutcome) -> (r: (
    UpdateMessage,
    bool,
))
    requires
        old(q).wf(),
    ensures
        final(q).wf(),
        keeps_terminal(old(q).tasks@, final(q).tasks@),
        QueueManager::marked_finished(*old(q), *final(q), task_id, outcome_status(outcome)),
        reports_outcome(r.0, task_id, outcome),
        r.1 == !old(q).stop_requested,
{
    let msg = match outcome {
        TaskOutcome::Succeeded => {
            q.mark_as_completed(task_id);
            UpdateMessage::TaskCompleted(task_id)
        },
        TaskOutcome::ForceStopped => {
            q.mark_as_cancelled(task_id);
            UpdateMessage::TaskCancelled(task_id)
        },
        TaskOutcome::Failed(m) => {
            let report = m.clone();
            q.mark_as_failed(task_id, m);
            UpdateMessage::TaskFailed(task_id, report)
        },
    };
    (msg, !q.is_stop_requested())
}

} // verus!
