use escale_core::run_loop::{FnTask, Schedule, Task, TaskStatus};

/// A task that logs its id on every poll and finishes after a set number
/// of polls.
struct CountedTask {
    id: u32,
    polls_left: u32,
}

impl Task<Vec<u32>> for CountedTask {
    fn run(&mut self, log: &mut Vec<u32>) -> TaskStatus {
        log.push(self.id);
        self.polls_left -= 1;
        if self.polls_left == 0 {
            TaskStatus::Done
        } else {
            TaskStatus::Pending
        }
    }
}

#[test]
fn done_task_is_polled_exactly_once() {
    let mut log: Vec<u32> = Vec::new();
    let mut schedule: Schedule<CountedTask, Vec<u32>> = Schedule::default();
    schedule.push(CountedTask { id: 1, polls_left: 1 });
    schedule.push(CountedTask { id: 2, polls_left: 3 });

    // first run: both present, task 1 finishes
    assert!(matches!(schedule.run(&mut log), TaskStatus::Pending));
    assert_eq!(log, vec![1, 2]);

    // later runs never see task 1 again
    assert!(matches!(schedule.run(&mut log), TaskStatus::Pending));
    assert_eq!(log, vec![1, 2, 2]);
    assert!(matches!(schedule.run(&mut log), TaskStatus::Done));
    assert_eq!(log, vec![1, 2, 2, 2]);
}

#[test]
fn empty_schedule_reports_done() {
    let mut log: Vec<u32> = Vec::new();
    let mut schedule: Schedule<CountedTask, Vec<u32>> = Schedule::default();
    assert!(matches!(schedule.run(&mut log), TaskStatus::Done));
}

#[test]
fn tasks_are_polled_in_insertion_order() {
    let mut log: Vec<u32> = Vec::new();
    let mut schedule: Schedule<CountedTask, Vec<u32>> = Schedule::default();
    schedule.push(CountedTask { id: 7, polls_left: 2 });
    schedule.push(CountedTask { id: 8, polls_left: 2 });
    schedule.push(CountedTask { id: 9, polls_left: 2 });
    assert!(matches!(schedule.run(&mut log), TaskStatus::Pending));
    assert!(matches!(schedule.run(&mut log), TaskStatus::Done));
    assert_eq!(log, vec![7, 8, 9, 7, 8, 9]);
}

#[test]
fn fn_task_runs_the_closure() {
    let mut count: u32 = 0;
    let mut schedule = Schedule::default();
    schedule.push(FnTask::new(|cx: &mut u32| {
        *cx += 1;
        if *cx < 3 {
            TaskStatus::Pending
        } else {
            TaskStatus::Done
        }
    }));
    assert!(matches!(schedule.run(&mut count), TaskStatus::Pending));
    assert!(matches!(schedule.run(&mut count), TaskStatus::Pending));
    assert!(matches!(schedule.run(&mut count), TaskStatus::Done));
    assert_eq!(count, 3);
}
