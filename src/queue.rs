use vstd::prelude::*;

verus! {

/// Where a task stands in its lifecycle.
#[derive(Debug, Clone, PartialEq, Eq)]
pub enum TaskStatus {
    Pending,
    Running,
    Completed,
    Failed(String),
    Cancelled,
}

impl TaskStatus {
    /// A status that no later mark may change.
    pub open spec fn is_terminal(self) -> bool {
        self is Completed || self is Failed || self is Cancelled
    }

    pub fn is_pending(&self) -> (r: bool)
        ensures
            r == (*self is Pending),
    {
        match self {
            TaskStatus::Pending => true,
            _ => false,
        }
    }

    pub fn is_running(&self) -> (r: bool)
        ensures
            r == (*self is Running),
    {
        match self {
            TaskStatus::Running => true,
            _ => false,
        }
    }

    pub fn is_finished(&self) -> (r: bool)
        ensures
            r == self.is_terminal(),
    {
        match self {
            TaskStatus::Completed | TaskStatus::Failed(_) | TaskStatus::Cancelled => true,
            _ => false,
        }
    }
}

/// One run of the external program: an input file, where its output goes, and
/// the recipe to process it with.
#[derive(Debug, Clone)]
pub struct VideoTask {
    pub id: usize,
    pub input_path: String,
    pub output_dir: String,
    pub recipe_path: String,
    pub status: TaskStatus,
}

impl VideoTask {
    /// Two tasks that hold the same values.
    pub open spec fn same_as(self, other: VideoTask) -> bool {
        &&& self.id == other.id
        &&& self.input_path@ == other.input_path@
        &&& self.output_dir@ == other.output_dir@
        &&& self.recipe_path@ == other.recipe_path@
        &&& match (self.status, other.status) {
            (TaskStatus::Failed(a), TaskStatus::Failed(b)) => a@ == b@,
            (TaskStatus::Failed(_), _) | (_, TaskStatus::Failed(_)) => false,
            (a, b) => a == b,
        }
    }

    /// A copy of the task whose every field holds the same value.
    pub fn duplicate(&self) -> (r: VideoTask)
        ensures
            r.same_as(*self),
    {
        let status = match &self.status {
            TaskStatus::Pending => TaskStatus::Pending,
            TaskStatus::Running => TaskStatus::Running,
            TaskStatus::Completed => TaskStatus::Completed,
            TaskStatus::Failed(m) => TaskStatus::Failed(m.clone()),
            TaskStatus::Cancelled => TaskStatus::Cancelled,
        };
        VideoTask {
            id: self.id,
            input_path: self.input_path.clone(),
            output_dir: self.output_dir.clone(),
            recipe_path: self.recipe_path.clone(),
            status,
        }
    }
}

/// Index `i` holds the task with identifier `id`.
pub open spec fn holds_id(tasks: Seq<VideoTask>, i: int, id: usize) -> bool {
    0 <= i < tasks.len() && tasks[i].id == id
}

/// Some index holds the task with identifier `id`.
pub open spec fn contains_id(tasks: Seq<VideoTask>, id: usize) -> bool {
    exists|i: int| holds_id(tasks, i, id)
}

/// No two tasks share an identifier.
pub open spec fn ids_unique(tasks: Seq<VideoTask>) -> bool {
    forall|i: int, j: int|
        0 <= i < tasks.len() && 0 <= j < tasks.len() && i != j ==> tasks[i].id != tasks[j].id
}

/// At most one task is running.
pub open spec fn at_most_one_running(tasks: Seq<VideoTask>) -> bool {
    forall|i: int, j: int|
        0 <= i < tasks.len() && 0 <= j < tasks.len() && (tasks[i].status is Running) && (
        tasks[j].status is Running) ==> i == j
}

/// Some task is pending.
pub open spec fn has_pending(tasks: Seq<VideoTask>) -> bool {
    exists|i: int| 0 <= i < tasks.len() && (tasks[i].status is Pending)
}

/// Index `i` holds the earliest pending task.
pub open spec fn is_first_pending(tasks: Seq<VideoTask>, i: int) -> bool {
    &&& 0 <= i < tasks.len()
    &&& tasks[i].status is Pending
    &&& forall|j: int| 0 <= j < i ==> !(tasks[j].status is Pending)
}

/// Every task of `before` whose status is terminal, and that is still held,
/// keeps that status in `after`.
pub open spec fn keeps_terminal(before: Seq<VideoTask>, after: Seq<VideoTask>) -> bool {
    forall|i: int, j: int|
        0 <= i < before.len() && 0 <= j < after.len() && before[i].status.is_terminal()
            && after[j].id == before[i].id ==> after[j].status == before[i].status
}

/// The task list with the status at index `i` replaced.
pub open spec fn with_status(tasks: Seq<VideoTask>, i: int, s: TaskStatus) -> Seq<VideoTask> {
    tasks.update(i, VideoTask { status: s, ..tasks[i] })
}

/// The ordered task list and the control flags that the worker reads.
#[derive(Debug, Clone)]
pub struct QueueManager {
    pub tasks: Vec<VideoTask>,
    pub next_task_index: usize,
    pub stop_requested: bool,
    pub force_stop_requested: bool,
}

impl QueueManager {
    /// The store's invariant: the scan cursor stays within the list and has only
    /// non-pending tasks behind it, identifiers are unique, and at most one task
    /// runs.
    pub open spec fn wf(self) -> bool {
        &&& self.next_task_index <= self.tasks@.len()
        &&& forall|j: int| 0 <= j < self.next_task_index ==> !(self.tasks@[j].status is Pending)
        &&& ids_unique(self.tasks@)
        &&& at_most_one_running(self.tasks@)
    }

    pub fn new() -> (r: Self)
        ensures
            r.wf(),
            r.tasks@.len() == 0,
            r.next_task_index == 0,
            !r.stop_requested,
            !r.force_stop_requested,
    {
        QueueManager {
            tasks: Vec::new(),
            next_task_index: 0,
            stop_requested: false,
            force_stop_requested: false,
        }
    }

    /// Appends a new pending task; its identifier must not be in use.
    pub fn add_task(&mut self, task: VideoTask)
        requires
            old(self).wf(),
            task.status is Pending,
            !contains_id(old(self).tasks@, task.id),
        ensures
            final(self).wf(),
            final(self).tasks@ == old(self).tasks@.push(task),
            keeps_terminal(old(self).tasks@, final(self).tasks@),
            final(self).next_task_index == old(self).next_task_index,
            final(self).stop_requested == old(self).stop_requested,
            final(self).force_stop_requested == old(self).force_stop_requested,
    {
        self.tasks.push(task);
        assert forall|i: int| 0 <= i < old(self).tasks@.len() implies self.tasks@[i].id
            != task.id by {
            if self.tasks@[i].id == task.id {
                assert(holds_id(old(self).tasks@, i, task.id));
            }
        }
        assert forall|i: int, j: int|
            0 <= i < old(self).tasks@.len() && 0 <= j < self.tasks@.len()
                && old(self).tasks@[i].status.is_terminal() && self.tasks@[j].id
                == old(self).tasks@[i].id implies self.tasks@[j].status
            == old(self).tasks@[i].status by {
            assert(self.tasks@[i] == old(self).tasks@[i]);
            if j == old(self).tasks@.len() {
                assert(holds_id(old(self).tasks@, i, task.id));
            }
        }
    }
}


impl QueueManager {
    /// The same flags and cursor as `other`.
    pub open spec fn same_controls(self, other: QueueManager) -> bool {
        &&& self.next_task_index == other.next_task_index
        &&& self.stop_requested == other.stop_requested
        &&& self.force_stop_requested == other.force_stop_requested
    }

    /// The same flags as `other`.
    pub open spec fn same_flags(self, other: QueueManager) -> bool {
        &&& self.stop_requested == other.stop_requested
        &&& self.force_stop_requested == other.force_stop_requested
    }

    /// The task at index `i` may become `Running`: it is not finished, and no
    /// other task runs.
    pub open spec fn may_run(tasks: Seq<VideoTask>, i: int) -> bool {
        &&& !tasks[i].status.is_terminal()
        &&& forall|j: int| 0 <= j < tasks.len() && (tasks[j].status is Running) ==> j == i
    }

    /// Where the task with identifier `id` stands, if it is held.
    fn position_of(&self, id: usize) -> (r: Option<usize>)
        ensures
            match r {
                Some(i) => holds_id(self.tasks@, i as int, id),
                None => !contains_id(self.tasks@, id),
            },
    {
        let mut i: usize = 0;
        while i < self.tasks.len()
            invariant
                i <= self.tasks@.len(),
                forall|j: int| 0 <= j < i ==> self.tasks@[j].id != id,
            decreases self.tasks@.len() - i,
        {
            if self.tasks[i].id == id {
                return Some(i);
            }
            i = i + 1;
        }
        None
    }

    /// Finds the earliest pending task, starting the scan at the cursor, and
    /// leaves the cursor on it; with none left, the cursor moves to the end.
    pub fn next_pending_task(&mut self) -> (r: Option<&mut VideoTask>)
        requires
            old(self).wf(),
        ensures
            r is None <==> !has_pending(old(self).tasks@),
            r is None ==> {
                &&& final(self).tasks@ == old(self).tasks@
                &&& final(self).next_task_index == old(self).tasks@.len()
                &&& final(self).same_flags(*old(self))
            },
            r is Some ==> {
                let i = final(self).next_task_index as int;
                &&& is_first_pending(old(self).tasks@, i)
                &&& *r.unwrap() == old(self).tasks@[i]
                &&& final(self).tasks@ == old(self).tasks@.update(i, *final(r.unwrap()))
                &&& final(self).same_flags(*old(self))
            },
    {
        let mut i: usize = self.next_task_index;
        while i < self.tasks.len()
            invariant
                self.wf(),
                *self == *old(self),
                self.next_task_index <= i <= self.tasks@.len(),
                forall|j: int| 0 <= j < i ==> !(self.tasks@[j].status is Pending),
            decreases self.tasks@.len() - i,
        {
            if self.tasks[i].status.is_pending() {
                self.next_task_index = i;
                return Some(&mut self.tasks[i]);
            }
            i = i + 1;
        }
        self.next_task_index = self.tasks.len();
        None
    }

    /// Marks the task with identifier `task_id` as running, unless it has finished or
    /// another task is running.
    pub fn mark_as_running(&mut self, task_id: usize)
        requires
            old(self).wf(),
        ensures
            final(self).wf(),
            final(self).same_controls(*old(self)),
            keeps_terminal(old(self).tasks@, final(self).tasks@),
            !contains_id(old(self).tasks@, task_id) ==> final(self).tasks@ == old(self).tasks@,
            forall|i: int|
                holds_id(old(self).tasks@, i, task_id) ==> final(self).tasks@ == if Self::may_run(
                    old(self).tasks@,
                    i,
                ) {
                    with_status(old(self).tasks@, i, TaskStatus::Running)
                } else {
                    old(self).tasks@
                },
    {
        match self.position_of(task_id) {
            Some(i) => {
                let mut may = !self.tasks[i].status.is_finished();
                let mut j: usize = 0;
                while j < self.tasks.len()
                    invariant
                        *self == *old(self),
                        i < self.tasks@.len(),
                        j <= self.tasks@.len(),
                        may == (!self.tasks@[i as int].status.is_terminal() && forall|k: int|
                            0 <= k < j && (self.tasks@[k].status is Running) ==> k == i),
                    decreases self.tasks@.len() - j,
                {
                    if j != i && self.tasks[j].status.is_running() {
                        may = false;
                    }
                    j = j + 1;
                }
                if may {
                    self.tasks[i].status = TaskStatus::Running;
                    assert(self.tasks@ =~= with_status(old(self).tasks@, i as int, TaskStatus::Running));
                }
            },
            None => {},
        }
    }
}


impl QueueManager {
    /// `after` is `before` once the task with identifier `id` was given the
    /// terminal status `s`: the flags stay; an unknown identifier changes
    /// nothing; a finished task keeps its status; and the cursor moves past the
    /// task if it stood on it.
    pub open spec fn marked_finished(
        before: QueueManager,
        after: QueueManager,
        id: usize,
        s: TaskStatus,
    ) -> bool {
        &&& after.same_flags(before)
        &&& !contains_id(before.tasks@, id) ==> after == before
        &&& forall|i: int|
            holds_id(before.tasks@, i, id) ==> {
                &&& after.tasks@ == if before.tasks@[i].status.is_terminal() {
                    before.tasks@
                } else {
                    with_status(before.tasks@, i, s)
                }
                &&& after.next_task_index == if before.next_task_index == i {
                    before.next_task_index + 1
                } else {
                    before.next_task_index as int
                }
            }
    }

    /// Gives the task with identifier `task_id` the terminal status `s`, unless it has
    /// already finished, and moves the cursor past it if it stood on it.
    fn mark_finished(&mut self, task_id: usize, s: TaskStatus)
        requires
            old(self).wf(),
            s.is_terminal(),
        ensures
            final(self).wf(),
            keeps_terminal(old(self).tasks@, final(self).tasks@),
            Self::marked_finished(*old(self), *final(self), task_id, s),
    {
        match self.position_of(task_id) {
            Some(i) => {
                if !self.tasks[i].status.is_finished() {
                    self.tasks[i].status = s;
                    assert(self.tasks@ =~= with_status(old(self).tasks@, i as int, s));
                }
                if self.next_task_index == i {
                    assert(i < self.tasks.len());
                    self.next_task_index = i + 1;
                }
            },
            None => {},
        }
    }

    /// Marks the task with identifier `task_id` as completed, unless it has finished.
    pub fn mark_as_completed(&mut self, task_id: usize)
        requires
            old(self).wf(),
        ensures
            final(self).wf(),
            keeps_terminal(old(self).tasks@, final(self).tasks@),
            Self::marked_finished(*old(self), *final(self), task_id, TaskStatus::Completed),
    {
        self.mark_finished(task_id, TaskStatus::Completed);
    }

    /// Marks the task with identifier `task_id` as failed with `err_msg`, unless it has
    /// finished.
    pub fn mark_as_failed(&mut self, task_id: usize, err_msg: String)
        requires
            old(self).wf(),
        ensures
            final(self).wf(),
            keeps_terminal(old(self).tasks@, final(self).tasks@),
            Self::marked_finished(*old(self), *final(self), task_id, TaskStatus::Failed(err_msg)),
    {
        self.mark_finished(task_id, TaskStatus::Failed(err_msg));
    }

    /// Marks the task with identifier `task_id` as cancelled, unless it has finished.
    pub fn mark_as_cancelled(&mut self, task_id: usize)
        requires
            old(self).wf(),
        ensures
            final(self).wf(),
            keeps_terminal(old(self).tasks@, final(self).tasks@),
            Self::marked_finished(*old(self), *final(self), task_id, TaskStatus::Cancelled),
    {
        self.mark_finished(task_id, TaskStatus::Cancelled);
    }

    /// Empties the queue and resets the cursor and both flags.
    pub fn clear_all_tasks(&mut self)
        ensures
            final(self).wf(),
            final(self).tasks@.len() == 0,
            final(self).next_task_index == 0,
            !final(self).stop_requested,
            !final(self).force_stop_requested,
    {
        self.tasks.clear();
        self.next_task_index = 0;
        self.stop_requested = false;
        self.force_stop_requested = false;
    }

    /// Deletes the task with identifier `task_id`, if it is held, and then resets the
    /// cursor to the start.
    pub fn remove_task(&mut self, task_id: usize)
        requires
            old(self).wf(),
        ensures
            final(self).wf(),
            final(self).same_flags(*old(self)),
            keeps_terminal(old(self).tasks@, final(self).tasks@),
            !contains_id(old(self).tasks@, task_id) ==> *final(self) == *old(self),
            forall|i: int|
                holds_id(old(self).tasks@, i, task_id) ==> {
                    &&& final(self).tasks@ == old(self).tasks@.remove(i)
                    &&& final(self).tasks@.len() == old(self).tasks@.len() - 1
                    &&& final(self).next_task_index == 0
                },
    {
        match self.position_of(task_id) {
            Some(i) => {
                self.tasks.remove(i);
                self.next_task_index = 0;
                assert forall|a: int, b: int|
                    0 <= a < self.tasks@.len() && 0 <= b < self.tasks@.len() && a != b implies
                    self.tasks@[a].id != self.tasks@[b].id by {
                    let oa = if a < i { a } else { a + 1 };
                    let ob = if b < i { b } else { b + 1 };
                    assert(self.tasks@[a] == old(self).tasks@[oa]);
                    assert(self.tasks@[b] == old(self).tasks@[ob]);
                }
                assert forall|a: int, b: int|
                    0 <= a < self.tasks@.len() && 0 <= b < self.tasks@.len() && (
                    self.tasks@[a].status is Running) && (self.tasks@[b].status is Running)
                    implies a == b by {
                    let oa = if a < i { a } else { a + 1 };
                    let ob = if b < i { b } else { b + 1 };
                    assert(self.tasks@[a] == old(self).tasks@[oa]);
                    assert(self.tasks@[b] == old(self).tasks@[ob]);
                }
                assert forall|a: int, b: int|
                    0 <= a < old(self).tasks@.len() && 0 <= b < self.tasks@.len()
                        && old(self).tasks@[a].status.is_terminal() && self.tasks@[b].id
                        == old(self).tasks@[a].id implies self.tasks@[b].status
                    == old(self).tasks@[a].status by {
                    let ob = if b < i { b } else { b + 1 };
                    assert(self.tasks@[b] == old(self).tasks@[ob]);
                }
            },
            None => {},
        }
    }

    /// Asks the worker to stop once the current task has finished.
    pub fn request_stop(&mut self)
        ensures
            final(self).tasks == old(self).tasks,
            final(self).next_task_index == old(self).next_task_index,
            final(self).stop_requested,
            final(self).force_stop_requested == old(self).force_stop_requested,
    {
        self.stop_requested = true;
    }

    /// Asks the supervisor to end the running process at once.
    pub fn request_force_stop(&mut self)
        ensures
            final(self).tasks == old(self).tasks,
            final(self).next_task_index == old(self).next_task_index,
            final(self).stop_requested == old(self).stop_requested,
            final(self).force_stop_requested,
    {
        self.force_stop_requested = true;
    }

    pub fn clear_stop_request(&mut self)
        ensures
            final(self).tasks == old(self).tasks,
            final(self).next_task_index == old(self).next_task_index,
            !final(self).stop_requested,
            final(self).force_stop_requested == old(self).force_stop_requested,
    {
        self.stop_requested = false;
    }

    pub fn clear_force_stop(&mut self)
        ensures
            final(self).tasks == old(self).tasks,
            final(self).next_task_index == old(self).next_task_index,
            final(self).stop_requested == old(self).stop_requested,
            !final(self).force_stop_requested,
    {
        self.force_stop_requested = false;
    }

    pub fn is_stop_requested(&self) -> (r: bool)
        ensures
            r == self.stop_requested,
    {
        self.stop_requested
    }

    pub fn is_force_stop_requested(&self) -> (r: bool)
        ensures
            r == self.force_stop_requested,
    {
        self.force_stop_requested
    }
}


/// `after` is `before` with the recipe of every pending task set to `p`, and
/// every other field and task left as it was.
pub open spec fn recipes_reassigned(before: Seq<VideoTask>, after: Seq<VideoTask>, p: Seq<char>) -> bool {
    &&& after.len() == before.len()
    &&& forall|i: int|
        0 <= i < before.len() ==> if before[i].status is Pending {
            &&& after[i].recipe_path@ == p
            &&& after[i] == VideoTask { recipe_path: after[i].recipe_path, ..before[i] }
        } else {
            after[i] == before[i]
        }
}

/// `after` is `before` with the output directory of every pending task set to
/// `p`, and every other field and task left as it was.
pub open spec fn output_dirs_reassigned(
    before: Seq<VideoTask>,
    after: Seq<VideoTask>,
    p: Seq<char>,
) -> bool {
    &&& after.len() == before.len()
    &&& forall|i: int|
        0 <= i < before.len() ==> if before[i].status is Pending {
            &&& after[i].output_dir@ == p
            &&& after[i] == VideoTask { output_dir: after[i].output_dir, ..before[i] }
        } else {
            after[i] == before[i]
        }
}

impl QueueManager {
    /// Sets the recipe of every pending task to `new_recipe_path`; running and
    /// finished tasks keep theirs.
    pub fn update_pending_recipes(&mut self, new_recipe_path: String)
        requires
            old(self).wf(),
        ensures
            final(self).wf(),
            final(self).same_controls(*old(self)),
            recipes_reassigned(old(self).tasks@, final(self).tasks@, new_recipe_path@),
            keeps_terminal(old(self).tasks@, final(self).tasks@),
    {
        let mut i: usize = 0;
        while i < self.tasks.len()
            invariant
                self.same_controls(*old(self)),
                self.tasks@.len() == old(self).tasks@.len(),
                i <= self.tasks@.len(),
                forall|k: int|
                    i <= k < self.tasks@.len() ==> self.tasks@[k] == old(self).tasks@[k],
                forall|k: int|
                    0 <= k < i ==> if old(self).tasks@[k].status is Pending {
                        &&& self.tasks@[k].recipe_path@ == new_recipe_path@
                        &&& self.tasks@[k] == VideoTask {
                            recipe_path: self.tasks@[k].recipe_path,
                            ..old(self).tasks@[k]
                        }
                    } else {
                        self.tasks@[k] == old(self).tasks@[k]
                    },
            decreases self.tasks@.len() - i,
        {
            if self.tasks[i].status.is_pending() {
                self.tasks[i].recipe_path = new_recipe_path.clone();
            }
            i = i + 1;
        }
        assert(forall|k: int|
            0 <= k < self.tasks@.len() ==> self.tasks@[k].id == old(self).tasks@[k].id
                && self.tasks@[k].status == old(self).tasks@[k].status);
    }

    /// Sets the output directory of every pending task to `new_output_dir`;
    /// running and finished tasks keep theirs.
    pub fn update_pending_output_dirs(&mut self, new_output_dir: String)
        requires
            old(self).wf(),
        ensures
            final(self).wf(),
            final(self).same_controls(*old(self)),
            output_dirs_reassigned(old(self).tasks@, final(self).tasks@, new_output_dir@),
            keeps_terminal(old(self).tasks@, final(self).tasks@),
    {
        let mut i: usize = 0;
        while i < self.tasks.len()
            invariant
                self.same_controls(*old(self)),
                self.tasks@.len() == old(self).tasks@.len(),
                i <= self.tasks@.len(),
                forall|k: int|
                    i <= k < self.tasks@.len() ==> self.tasks@[k] == old(self).tasks@[k],
                forall|k: int|
                    0 <= k < i ==> if old(self).tasks@[k].status is Pending {
                        &&& self.tasks@[k].output_dir@ == new_output_dir@
                        &&& self.tasks@[k] == VideoTask {
                            output_dir: self.tasks@[k].output_dir,
                            ..old(self).tasks@[k]
                        }
                    } else {
                        self.tasks@[k] == old(self).tasks@[k]
                    },
            decreases self.tasks@.len() - i,
        {
            if self.tasks[i].status.is_pending() {
                self.tasks[i].output_dir = new_output_dir.clone();
            }
            i = i + 1;
        }
        assert(forall|k: int|
            0 <= k < self.tasks@.len() ==> self.tasks@[k].id == old(self).tasks@[k].id
                && self.tasks@[k].status == old(self).tasks@[k].status);
    }
}


/// Appending a task keeps the scheduling order: the earliest pending task stays
/// first, and the new task is first only when no earlier task is pending and it
/// is pending itself.
pub proof fn lemma_add_keeps_scheduling_order(tasks: Seq<VideoTask>, task: VideoTask, i: int)
    ensures
        is_first_pending(tasks.push(task), i) <==> (is_first_pending(tasks, i) || (!has_pending(
            tasks,
        ) && i == tasks.len() && (task.status is Pending))),
{
    let after = tasks.push(task);
    assert forall|j: int| 0 <= j < tasks.len() implies after[j] == tasks[j] by {}
    if is_first_pending(after, i) && i == tasks.len() {
        if has_pending(tasks) {
            let k = choose|k: int| 0 <= k < tasks.len() && (tasks[k].status is Pending);
            assert(after[k] == tasks[k]);
        }
    }
}


/// In a well-formed queue, and so after every operation of the store, at most
/// one task is running: two running tasks are the same task.
pub proof fn lemma_single_running_task(q: QueueManager, i: int, j: int)
    requires
        q.wf(),
        0 <= i < q.tasks@.len(),
        0 <= j < q.tasks@.len(),
        q.tasks@[i].status is Running,
        q.tasks@[j].status is Running,
    ensures
        i == j,
{
}


impl QueueManager {
    /// Tests the store's invariant; a queue built only through this type's
    /// operations always passes.
    pub fn is_well_formed(&self) -> (r: bool)
        ensures
            r == self.wf(),
    {
        let n = self.tasks.len();
        if self.next_task_index > n {
            return false;
        }
        let mut k: usize = 0;
        while k < self.next_task_index
            invariant
                self.next_task_index <= n == self.tasks@.len(),
                k <= self.next_task_index,
                forall|j: int| 0 <= j < k ==> !(self.tasks@[j].status is Pending),
            decreases self.next_task_index - k,
        {
            if self.tasks[k].status.is_pending() {
                return false;
            }
            k = k + 1;
        }
        let mut running: Option<usize> = None;
        let mut a: usize = 0;
        while a < n
            invariant
                n == self.tasks@.len(),
                a <= n,
                forall|i: int, j: int|
                    0 <= i < a && 0 <= j < n && i != j ==> self.tasks@[i].id != self.tasks@[j].id,
                forall|i: int, j: int|
                    0 <= i < a && 0 <= j < a && (self.tasks@[i].status is Running) && (
                    self.tasks@[j].status is Running) ==> i == j,
                match running {
                    Some(x) => x < a && (self.tasks@[x as int].status is Running),
                    None => forall|i: int| 0 <= i < a ==> !(self.tasks@[i].status is Running),
                },
            decreases n - a,
        {
            let mut b: usize = 0;
            while b < n
                invariant
                    n == self.tasks@.len(),
                    a < n,
                    b <= n,
                    forall|j: int| 0 <= j < b && j != a ==> self.tasks@[a as int].id != self.tasks@[j].id,
                decreases n - b,
            {
                if b != a && self.tasks[a].id == self.tasks[b].id {
                    assert(!ids_unique(self.tasks@));
                    return false;
                }
                b = b + 1;
            }
            if self.tasks[a].status.is_running() {
                match running {
                    Some(x) => {
                        assert(!at_most_one_running(self.tasks@));
                        return false;
                    },
                    None => {
                        running = Some(a);
                    },
                }
            }
            a = a + 1;
        }
        true
    }
}


/// The identifiers of the pending tasks, in list order.
pub open spec fn pending_ids(tasks: Seq<VideoTask>) -> Seq<usize>
    decreases tasks.len(),
{
    if tasks.len() == 0 {
        Seq::empty()
    } else {
        let rest = pending_ids(tasks.drop_last());
        if tasks.last().status is Pending {
            rest.push(tasks.last().id)
        } else {
            rest
        }
    }
}

/// A list with no pending task has no pending identifiers.
pub proof fn lemma_no_pending_ids(tasks: Seq<VideoTask>)
    requires
        !has_pending(tasks),
    ensures
        pending_ids(tasks).len() == 0,
    decreases tasks.len(),
{
    if tasks.len() > 0 {
        let rest = tasks.drop_last();
        if has_pending(rest) {
            let k = choose|k: int| 0 <= k < rest.len() && (rest[k].status is Pending);
            assert(tasks[k] == rest[k]);
        }
        lemma_no_pending_ids(rest);
        assert(tasks.last() == tasks[tasks.len() - 1]);
    }
}

/// Finishing the earliest pending task takes its identifier off the front of
/// the pending identifiers and leaves the rest in order.
pub proof fn lemma_finish_first_pending(tasks: Seq<VideoTask>, i: int, s: TaskStatus)
    requires
        is_first_pending(tasks, i),
        !(s is Pending),
    ensures
        pending_ids(tasks) == seq![tasks[i].id] + pending_ids(with_status(tasks, i, s)),
    decreases tasks.len(),
{
    let after = with_status(tasks, i, s);
    let last = tasks.len() - 1;
    if i == last {
        assert(after.drop_last() =~= tasks.drop_last());
        assert forall|j: int| 0 <= j < tasks.drop_last().len() implies !(
        tasks.drop_last()[j].status is Pending) by {
            assert(tasks.drop_last()[j] == tasks[j]);
        }
        lemma_no_pending_ids(tasks.drop_last());
        assert(pending_ids(tasks) =~= seq![tasks[i].id] + pending_ids(after));
    } else {
        let rest = tasks.drop_last();
        assert(after.drop_last() =~= with_status(rest, i, s));
        assert forall|j: int| 0 <= j < i implies !(rest[j].status is Pending) by {
            assert(rest[j] == tasks[j]);
        }
        assert(rest[i] == tasks[i]);
        lemma_finish_first_pending(rest, i, s);
        assert(after.last() == tasks.last());
        if tasks.last().status is Pending {
            assert(pending_ids(tasks) =~= seq![tasks[i].id] + pending_ids(after));
        } else {
            assert(pending_ids(tasks) =~= seq![tasks[i].id] + pending_ids(after));
        }
    }
}

/// Taking the earliest pending task again and again, and giving each a terminal
/// status, until none is pending, visits exactly the tasks that were pending at
/// the start, each once, in the order they were added. `states[k]` is the list
/// before step `k`; `picked[k]` is where the earliest pending task stood in it, as
/// `next_pending_task` reports; and `states[k + 1]` is what `mark_as_completed`,
/// `mark_as_failed` or `mark_as_cancelled` leave of it.
pub proof fn lemma_dispatch_follows_insertion_order(
    states: Seq<Seq<VideoTask>>,
    picked: Seq<int>,
    outcomes: Seq<TaskStatus>,
)
    requires
        states.len() == picked.len() + 1,
        outcomes.len() == picked.len(),
        forall|k: int|
            0 <= k < picked.len() ==> {
                &&& is_first_pending(#[trigger] states[k], picked[k])
                &&& outcomes[k].is_terminal()
                &&& states[k + 1] == with_status(states[k], picked[k], outcomes[k])
            },
        !has_pending(states.last()),
    ensures
        pending_ids(states[0]) == Seq::new(picked.len(), |k: int| states[k][picked[k]].id),
    decreases picked.len(),
{
    if picked.len() == 0 {
        lemma_no_pending_ids(states[0]);
        assert(pending_ids(states[0]) =~= Seq::new(picked.len(), |k: int| states[k][picked[k]].id));
    } else {
        let later = states.drop_first();
        assert forall|k: int| 0 <= k < picked.len() - 1 implies {
            &&& is_first_pending(#[trigger] later[k], picked.drop_first()[k])
            &&& outcomes.drop_first()[k].is_terminal()
            &&& later[k + 1] == with_status(later[k], picked.drop_first()[k], outcomes.drop_first()[k])
        } by {
            assert(later[k] == states[k + 1]);
            assert(later[k + 1] == states[k + 2]);
            assert(is_first_pending(states[k + 1], picked[k + 1]));
        }
        assert(later.last() == states.last());
        lemma_dispatch_follows_insertion_order(later, picked.drop_first(), outcomes.drop_first());
        assert(is_first_pending(states[0], picked[0]));
        lemma_finish_first_pending(states[0], picked[0], outcomes[0]);
        assert(later[0] == states[1]);
        assert(pending_ids(states[0]) =~= Seq::new(picked.len(), |k: int| states[k][picked[k]].id));
    }
}

} // verus!
