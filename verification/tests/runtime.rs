use template_module::runtime::{ProducerRuntime, RuntimeState, TaskId};
use template_module::update_loop::{
    LoopAction, LoopEvent, UpdateLoop, CYCLE_DELAY_MS, STEP_DELAY_MS,
};

#[test]
fn new_runtime_is_idle() {
    let mut runtime = ProducerRuntime::new();
    assert_eq!(runtime.state(), RuntimeState::Idle);
    assert!(runtime.live_tasks().is_empty());
    assert!(!runtime.is_live(TaskId { generation: 0, serial: 0 }));
    assert!(runtime.begin_shutdown().is_empty());
    assert_eq!(runtime.state(), RuntimeState::Idle);
}

#[test]
fn spawned_tasks_are_numbered_and_live() {
    let mut runtime = ProducerRuntime::new();
    let first = runtime.spawn();
    let second = runtime.spawn();
    assert_eq!(first, TaskId { generation: 0, serial: 0 });
    assert_eq!(second, TaskId { generation: 0, serial: 1 });
    assert_eq!(runtime.state(), RuntimeState::Running);
    assert!(runtime.is_live(first));
    assert!(runtime.is_live(second));
    assert_eq!(runtime.live_tasks(), vec![first, second]);
}

#[test]
fn shutdown_waits_for_every_live_task() {
    let mut runtime = ProducerRuntime::new();
    let tasks = [runtime.spawn(), runtime.spawn(), runtime.spawn()];
    let pending = runtime.begin_shutdown();
    assert_eq!(pending, tasks.to_vec());
    assert_eq!(runtime.state(), RuntimeState::ShuttingDown);
    runtime.task_ended(tasks[1]);
    assert_eq!(runtime.state(), RuntimeState::ShuttingDown);
    assert!(runtime.is_live(tasks[0]));
    assert!(!runtime.is_live(tasks[1]));
    runtime.task_ended(tasks[0]);
    assert_eq!(runtime.state(), RuntimeState::ShuttingDown);
    runtime.task_ended(tasks[2]);
    assert_eq!(runtime.state(), RuntimeState::Idle);
    for task in tasks {
        assert!(!runtime.is_live(task));
    }
    assert!(runtime.live_tasks().is_empty());
}

#[test]
fn failed_task_does_not_hold_up_the_others() {
    let mut runtime = ProducerRuntime::new();
    let first = runtime.spawn();
    let second = runtime.spawn();
    runtime.task_ended(first);
    assert_eq!(runtime.state(), RuntimeState::Running);
    assert!(runtime.is_live(second));
    assert_eq!(runtime.begin_shutdown(), vec![second]);
    runtime.task_ended(first);
    assert_eq!(runtime.state(), RuntimeState::ShuttingDown);
    runtime.task_ended(second);
    assert_eq!(runtime.state(), RuntimeState::Idle);
}

#[test]
fn shutdown_with_all_tasks_ended_is_complete_at_once() {
    let mut runtime = ProducerRuntime::new();
    let task = runtime.spawn();
    runtime.task_ended(task);
    assert_eq!(runtime.state(), RuntimeState::Running);
    assert!(runtime.begin_shutdown().is_empty());
    assert_eq!(runtime.state(), RuntimeState::Idle);
}

#[test]
fn reset_starts_a_batch_without_the_old_tasks() {
    let mut runtime = ProducerRuntime::new();
    let old = [runtime.spawn(), runtime.spawn()];
    for task in runtime.begin_shutdown() {
        runtime.task_ended(task);
    }
    assert_eq!(runtime.state(), RuntimeState::Idle);
    runtime.reset();
    assert_eq!(runtime.state(), RuntimeState::Idle);
    assert!(runtime.live_tasks().is_empty());
    let fresh = runtime.spawn();
    assert_eq!(fresh, TaskId { generation: 1, serial: 0 });
    assert_eq!(runtime.live_tasks(), vec![fresh]);
    assert!(runtime.is_live(fresh));
    for task in old {
        assert!(!runtime.is_live(task));
    }
}

#[test]
fn end_of_an_unknown_task_changes_nothing() {
    let mut runtime = ProducerRuntime::new();
    let task = runtime.spawn();
    runtime.task_ended(TaskId { generation: 0, serial: 5 });
    runtime.task_ended(TaskId { generation: 3, serial: 0 });
    assert!(runtime.is_live(task));
    assert_eq!(runtime.state(), RuntimeState::Running);
}

fn actions(update: &mut UpdateLoop, count: usize) -> Vec<LoopAction> {
    (0..count).map(|_| update.next(LoopEvent::Proceed)).collect()
}

#[test]
fn loop_writes_each_value_and_waits() {
    let mut update = UpdateLoop::new("ab");
    assert_eq!(
        actions(&mut update, 5),
        vec![
            LoopAction::Write('a'),
            LoopAction::Wait(500),
            LoopAction::Write('b'),
            LoopAction::Wait(500),
            LoopAction::Wait(1500),
        ]
    );
    assert_eq!(STEP_DELAY_MS, 500);
    assert_eq!(CYCLE_DELAY_MS, 1500);
}

#[test]
fn loop_starts_again_after_the_long_wait() {
    let mut update = UpdateLoop::new("xyz");
    let first = actions(&mut update, 7);
    let second = actions(&mut update, 7);
    assert_eq!(first, second);
    assert_eq!(first[0], LoopAction::Write('x'));
    assert_eq!(first[4], LoopAction::Write('z'));
    assert_eq!(first[6], LoopAction::Wait(1500));
}

#[test]
fn loop_without_values_only_waits() {
    let mut update = UpdateLoop::new("");
    assert_eq!(
        actions(&mut update, 3),
        vec![LoopAction::Wait(1500), LoopAction::Wait(1500), LoopAction::Wait(1500)]
    );
}

#[test]
fn loop_takes_characters_not_bytes() {
    let mut update = UpdateLoop::new("é→");
    assert_eq!(update.next(LoopEvent::Proceed), LoopAction::Write('é'));
    assert_eq!(update.next(LoopEvent::Proceed), LoopAction::Wait(500));
    assert_eq!(update.next(LoopEvent::Proceed), LoopAction::Write('→'));
}

#[test]
fn cancelled_loop_exits_and_stays_out() {
    let mut update = UpdateLoop::new("ab");
    assert_eq!(update.next(LoopEvent::Proceed), LoopAction::Write('a'));
    assert!(!update.has_ended());
    assert_eq!(update.next(LoopEvent::Cancelled), LoopAction::Exit);
    assert!(update.has_ended());
    assert_eq!(update.next(LoopEvent::Proceed), LoopAction::Exit);
    assert_eq!(update.next(LoopEvent::Proceed), LoopAction::Exit);
}

#[test]
fn failed_write_ends_the_loop() {
    let mut update = UpdateLoop::new("ab");
    assert_eq!(update.next(LoopEvent::Proceed), LoopAction::Write('a'));
    assert_eq!(update.next(LoopEvent::WriteFailed), LoopAction::Exit);
    assert!(update.has_ended());
    assert_eq!(update.next(LoopEvent::Proceed), LoopAction::Exit);
}
