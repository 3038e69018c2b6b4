use smoothie_queuer::config::{
    find_default_recipe, find_smoothie_config_auto, find_smoothie_config_in_dir, ConfigError,
};
use smoothie_queuer::queue::{QueueManager, TaskStatus, VideoTask};
use smoothie_queuer::text::decimal;
use smoothie_queuer::worker::{
    finish_task, missing_recipe_message, prepare_launch, recipe_not_found_message, spawn_failure, start_next_task,
    supervise_step, ProcessPoll, SupervisorStep, TaskOutcome, UpdateMessage,
};

fn task(id: usize, recipe: &str) -> VideoTask {
    VideoTask {
        id,
        input_path: format!("in{}.mp4", id),
        output_dir: "renders".to_string(),
        recipe_path: recipe.to_string(),
        status: TaskStatus::Pending,
    }
}

fn queue_of(ids: &[usize]) -> QueueManager {
    let mut q = QueueManager::new();
    for &id in ids {
        q.add_task(task(id, "recipe.ini"));
    }
    q
}

#[test]
fn decimal_writes_digits() {
    assert_eq!(decimal(0), "0");
    assert_eq!(decimal(7), "7");
    assert_eq!(decimal(42), "42");
    assert_eq!(decimal(1234567), "1234567");
    assert_eq!(decimal(usize::MAX), usize::MAX.to_string());
}

#[test]
fn missing_recipe_fails_without_arguments_and_names_path() {
    let t = task(3, "/nowhere/recipe.ini");
    let r = prepare_launch(&t, false, "/abs/renders");
    let msg = r.unwrap_err();
    assert_eq!(
        msg,
        "Task 3 failed: Recipe file not found at path: \"/nowhere/recipe.ini\""
    );
    assert!(msg.contains("/nowhere/recipe.ini"));
    assert_eq!(missing_recipe_message(3, "/nowhere/recipe.ini"), msg);
}

#[test]
fn missing_recipe_path_is_shown_as_debug_form() {
    let path = "C:\\Smoothie\\my \"fast\" recipe\n.ini";
    let msg = missing_recipe_message(17, path);
    let expected = format!(
        "Task 17 failed: Recipe file not found at path: {:?}",
        std::path::Path::new(path)
    );
    assert_eq!(msg, expected);
    assert!(msg.ends_with("\"C:\\\\Smoothie\\\\my \\\"fast\\\" recipe\\n.ini\""));
}

#[test]
fn recipe_not_found_message_keeps_shown_path() {
    assert_eq!(
        recipe_not_found_message(250, "<shown>"),
        "Task 250 failed: Recipe file not found at path: <shown>"
    );
}

#[test]
fn launch_arguments_carry_recipe_input_and_output() {
    let t = task(4, "fast.ini");
    let args = prepare_launch(&t, true, "/abs/renders").unwrap();
    assert_eq!(
        args,
        vec!["--recipe", "fast.ini", "--input", "in4.mp4", "--outdir", "/abs/renders"]
    );
}

#[test]
fn force_stop_kills_process_and_cancels_task() {
    let step = supervise_step(1, true, ProcessPoll::StillRunning);
    assert!(matches!(step, SupervisorStep::KillProcess));
    let step = supervise_step(
        1,
        true,
        ProcessPoll::Exited { success: true, status: "exit status: 0".to_string() },
    );
    assert!(matches!(step, SupervisorStep::KillProcess));

    let mut q = queue_of(&[1]);
    let started = start_next_task(&mut q).unwrap();
    assert_eq!(started.id, 1);
    q.request_force_stop();
    q.request_stop();
    let (msg, go_on) = finish_task(&mut q, 1, TaskOutcome::ForceStopped);
    assert!(matches!(msg, UpdateMessage::TaskCancelled(1)));
    assert!(!go_on);
    assert_eq!(q.tasks[0].status, TaskStatus::Cancelled);
}

#[test]
fn poll_results_map_to_outcomes() {
    assert!(matches!(
        supervise_step(2, false, ProcessPoll::StillRunning),
        SupervisorStep::KeepWaiting
    ));
    assert!(matches!(
        supervise_step(
            2,
            false,
            ProcessPoll::Exited { success: true, status: "exit status: 0".to_string() }
        ),
        SupervisorStep::Finish(TaskOutcome::Succeeded)
    ));
    match supervise_step(
        2,
        false,
        ProcessPoll::Exited { success: false, status: "exit status: 3".to_string() },
    ) {
        SupervisorStep::Finish(TaskOutcome::Failed(m)) => {
            assert_eq!(m, "Task 2 failed with status: exit status: 3")
        }
        other => panic!("unexpected step {:?}", other),
    }
    match supervise_step(12, false, ProcessPoll::WaitError { error: "interrupted".to_string() }) {
        SupervisorStep::Finish(TaskOutcome::Failed(m)) => {
            assert_eq!(m, "Task 12 failed while waiting: interrupted")
        }
        other => panic!("unexpected step {:?}", other),
    }
}

#[test]
fn spawn_failure_message_names_error() {
    match spawn_failure(5, "No such file or directory (os error 2)") {
        TaskOutcome::Failed(m) => assert_eq!(
            m,
            "Task 5 failed to spawn: No such file or directory (os error 2). Is 'smoothie-rs' in PATH?"
        ),
        other => panic!("unexpected outcome {:?}", other),
    }
}

#[test]
fn stop_between_tasks_leaves_next_pending() {
    let mut q = queue_of(&[1, 2]);
    let a = start_next_task(&mut q).unwrap();
    assert_eq!(a.id, 1);
    let (msg, go_on) = finish_task(&mut q, 1, TaskOutcome::Succeeded);
    assert!(matches!(msg, UpdateMessage::TaskCompleted(1)));
    assert!(go_on);
    q.request_stop();
    assert!(start_next_task(&mut q).is_none());
    assert_eq!(q.tasks[0].status, TaskStatus::Completed);
    assert_eq!(q.tasks[1].status, TaskStatus::Pending);
}

#[test]
fn start_clears_force_stop_and_marks_running() {
    let mut q = queue_of(&[1, 2]);
    q.request_force_stop();
    let a = start_next_task(&mut q).unwrap();
    assert_eq!(a.id, 1);
    assert_eq!(a.status, TaskStatus::Pending);
    assert!(!q.is_force_stop_requested());
    assert_eq!(q.tasks[0].status, TaskStatus::Running);
}

#[test]
fn nothing_starts_while_a_task_runs() {
    let mut q = queue_of(&[1, 2]);
    q.mark_as_running(1);
    q.request_force_stop();
    assert!(start_next_task(&mut q).is_none());
    assert_eq!(q.tasks[1].status, TaskStatus::Pending);
    assert!(q.is_force_stop_requested());
}

#[test]
fn worker_runs_queue_to_the_end() {
    let mut q = queue_of(&[1, 2, 3]);
    let mut reports = Vec::new();
    while let Some(t) = start_next_task(&mut q) {
        reports.push(UpdateMessage::TaskStarted(t.id));
        let outcome = if t.id == 2 {
            TaskOutcome::Failed("bad".to_string())
        } else {
            TaskOutcome::Succeeded
        };
        let (msg, go_on) = finish_task(&mut q, t.id, outcome);
        reports.push(msg);
        if !go_on {
            break;
        }
    }
    assert_eq!(reports.len(), 6);
    assert!(matches!(reports[0], UpdateMessage::TaskStarted(1)));
    assert!(matches!(reports[1], UpdateMessage::TaskCompleted(1)));
    assert!(matches!(reports[2], UpdateMessage::TaskStarted(2)));
    assert!(matches!(&reports[3], UpdateMessage::TaskFailed(2, m) if m == "bad"));
    assert!(matches!(reports[5], UpdateMessage::TaskCompleted(3)));
    assert_eq!(q.tasks[1].status, TaskStatus::Failed("bad".to_string()));
    assert_eq!(q.next_task_index, 3);
}

#[test]
fn start_on_empty_or_stopped_queue_is_none() {
    let mut q = QueueManager::new();
    assert!(start_next_task(&mut q).is_none());
    let mut q = queue_of(&[1]);
    q.request_stop();
    assert!(start_next_task(&mut q).is_none());
    assert_eq!(q.tasks[0].status, TaskStatus::Pending);
}

#[test]
fn default_recipe_choice() {
    assert_eq!(find_default_recipe(true, Some("/s/recipe.ini".to_string()), true), "./Smoothie/recipe.ini");
    assert_eq!(find_default_recipe(false, Some("/s/recipe.ini".to_string()), true), "/s/recipe.ini");
    assert_eq!(find_default_recipe(false, Some("/s/recipe.ini".to_string()), false), "recipe.ini");
    assert_eq!(find_default_recipe(false, None, false), "recipe.ini");
}

#[test]
fn config_auto_needs_executable() {
    let e = find_smoothie_config_auto(None, "recipe.ini".to_string()).unwrap_err();
    assert_eq!(e, ConfigError::ExecutableNotFound);
    assert_eq!(e.message(), "smoothie-rs executable not found automatically.");
    let c = find_smoothie_config_auto(Some("/bin/smoothie-rs".to_string()), "r.ini".to_string())
        .unwrap();
    assert_eq!(c.executable_path, "/bin/smoothie-rs");
    assert_eq!(c.recipe_path, "r.ini");
}

#[test]
fn config_in_dir_prefers_folder_recipe() {
    let c = find_smoothie_config_in_dir(
        "/s/bin/smoothie-rs.exe".to_string(),
        true,
        "/s/recipe.ini".to_string(),
        true,
        "recipe.ini".to_string(),
    )
    .unwrap();
    assert_eq!(c.recipe_path, "/s/recipe.ini");
    let c = find_smoothie_config_in_dir(
        "/s/bin/smoothie-rs.exe".to_string(),
        true,
        "/s/recipe.ini".to_string(),
        false,
        "./Smoothie/recipe.ini".to_string(),
    )
    .unwrap();
    assert_eq!(c.executable_path, "/s/bin/smoothie-rs.exe");
    assert_eq!(c.recipe_path, "./Smoothie/recipe.ini");
    let e = find_smoothie_config_in_dir(
        "/s/bin/smoothie-rs.exe".to_string(),
        false,
        "/s/recipe.ini".to_string(),
        true,
        "recipe.ini".to_string(),
    );
    assert_eq!(e.unwrap_err(), ConfigError::ExecutableNotFound);
}
