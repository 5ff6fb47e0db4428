use atlassian_cli::bulk::{
    summarize, BulkConfig, BulkError, BulkExecutor, BulkResult, Scheduler, TaskFailure,
};
use std::cell::Cell;

#[test]
fn test_new_executor() {
    let executor = BulkExecutor::new(5, false);
    assert_eq!(executor.concurrency(), 5);
    assert!(!executor.dry_run());
}

#[test]
fn test_new_executor_zero_concurrency() {
    let executor = BulkExecutor::new(0, false);
    assert_eq!(executor.concurrency(), 1);
}

#[test]
fn test_new_executor_dry_run() {
    let executor = BulkExecutor::new(3, true);
    assert_eq!(executor.concurrency(), 3);
    assert!(executor.dry_run());
}

#[test]
fn test_run_empty_items() {
    let executor = BulkExecutor::new(2, false);
    let items: Vec<i32> = vec![];
    let result: Result<(), BulkError<String>> = executor.run(items, |_item| Ok(()));
    assert!(result.is_ok());
}

#[test]
fn test_run_multiple_items() {
    let executor = BulkExecutor::new(3, false);
    let counter = Cell::new(0usize);
    let result: Result<(), BulkError<String>> = executor.run(vec![1, 2, 3, 4, 5], |_item| {
        counter.set(counter.get() + 1);
        Ok(())
    });
    assert!(result.is_ok());
    assert_eq!(counter.get(), 5);
}

#[test]
fn test_dry_run_skips_execution() {
    let executor = BulkExecutor::new(2, true);
    let counter = Cell::new(0usize);
    let result: Result<(), BulkError<String>> = executor.run(vec![1, 2, 3], |_item| {
        counter.set(counter.get() + 1);
        Ok(())
    });
    assert!(result.is_ok());
    assert_eq!(counter.get(), 0);
}

#[test]
fn test_run_with_error() {
    let executor = BulkExecutor::new(2, false).with_fail_fast(true);
    let calls = Cell::new(0usize);
    let result = executor.run(vec![1, 2, 3], |item| {
        calls.set(calls.get() + 1);
        if item == 2 {
            Err(String::from("Test error on item 2"))
        } else {
            Ok(())
        }
    });
    assert_eq!(result, Err(BulkError::Task(String::from("Test error on item 2"))));
    assert_eq!(calls.get(), 2);
}

#[test]
fn test_run_with_multiple_errors() {
    let executor = BulkExecutor::new(2, false);
    let result = executor.run(vec![1, 2, 3, 4], |item| {
        if item == 2 || item == 4 {
            Err(format!("Test error on item {}", item))
        } else {
            Ok(())
        }
    });
    assert_eq!(result, Err(BulkError::MultipleFailed { count: 2 }));
}

#[test]
fn execute_with_results_pairs_failures_with_indices() {
    let executor = BulkExecutor::new(2, false);
    let result: BulkResult<i32, String> = executor.execute_with_results(vec![1, 2, 3, 4], |item| {
        if item % 2 == 0 {
            Err(format!("bad {}", item))
        } else {
            Ok(item * 10)
        }
    });
    let mut values = result.successful.clone();
    values.sort();
    assert_eq!(values, vec![10, 30]);
    assert_eq!(
        result.failed,
        vec![
            (1, TaskFailure::Job(String::from("bad 2"))),
            (3, TaskFailure::Job(String::from("bad 4"))),
        ]
    );
    assert!(!result.is_complete_success());
    assert_eq!(result.success_count(), 2);
    assert_eq!(result.failure_count(), 2);
}

#[test]
fn execute_with_results_dry_run_marks_every_item() {
    let executor = BulkExecutor::new(4, true);
    let calls = Cell::new(0usize);
    let result: BulkResult<i32, String> = executor.execute_with_results(vec![7, 8, 9], |item| {
        calls.set(calls.get() + 1);
        Ok(item)
    });
    assert_eq!(calls.get(), 0);
    assert!(result.successful.is_empty());
    assert_eq!(
        result.failed,
        vec![(0, TaskFailure::DryRun), (1, TaskFailure::DryRun), (2, TaskFailure::DryRun)]
    );
}

#[test]
fn zero_concurrency_is_one() {
    let a = BulkExecutor::from_config(BulkConfig { concurrency: 0, dry_run: false, show_progress: false, fail_fast: true });
    let b = BulkExecutor::from_config(BulkConfig { concurrency: 1, dry_run: false, show_progress: false, fail_fast: true });
    assert_eq!(a.concurrency(), b.concurrency());
    assert_eq!(a.dry_run(), b.dry_run());
    assert_eq!(a.show_progress(), b.show_progress());
    assert_eq!(a.fail_fast(), b.fail_fast());
}

#[test]
fn scheduler_never_exceeds_ceiling() {
    let executor = BulkExecutor::new(2, false);
    let mut scheduler = executor.scheduler(5);
    let mut peak = 0;
    let mut started = Vec::new();
    while !scheduler.is_done() {
        while let Some(index) = scheduler.try_start() {
            started.push(index);
            peak = peak.max(scheduler.active());
        }
        assert!(scheduler.active() <= 2);
        scheduler.complete();
    }
    assert_eq!(started, vec![0, 1, 2, 3, 4]);
    assert_eq!(peak, 2);
    assert_eq!(scheduler.active(), 0);
    assert_eq!(scheduler.try_start(), None);
}

#[test]
fn scheduler_floor_of_one() {
    let mut scheduler = Scheduler::new(0, 2);
    assert_eq!(scheduler.try_start(), Some(0));
    assert_eq!(scheduler.try_start(), None);
    scheduler.complete();
    assert_eq!(scheduler.try_start(), Some(1));
}

#[test]
fn bulk_config_default() {
    let config = BulkConfig::default();
    assert_eq!(config.concurrency, 4);
    assert!(!config.dry_run);
    assert!(config.show_progress);
    assert!(!config.fail_fast);
}

#[test]
fn test_run_single_item() {
    let executor = BulkExecutor::new(1, false);
    let counter = Cell::new(0usize);
    let result: Result<(), BulkError<String>> = executor.run(vec![1], |_item| {
        counter.set(counter.get() + 1);
        Ok(())
    });
    assert!(result.is_ok());
    assert_eq!(counter.get(), 1);
}

#[test]
fn test_concurrency_limit() {
    let executor = BulkExecutor::new(2, false);
    let mut scheduler = executor.scheduler(5);
    let mut max_concurrent = 0;
    let mut finished = 0;
    while !scheduler.is_done() {
        while scheduler.try_start().is_some() {
            max_concurrent = max_concurrent.max(scheduler.active());
        }
        scheduler.complete();
        finished += 1;
    }
    assert_eq!(finished, 5);
    assert!(max_concurrent <= 2);
}

#[test]
fn fail_fast_without_failures_runs_every_item() {
    let executor = BulkExecutor::new(2, false).with_fail_fast(true);
    let calls = Cell::new(0usize);
    let result: Result<(), BulkError<String>> = executor.run(vec![1, 2, 3], |_| {
        calls.set(calls.get() + 1);
        Ok(())
    });
    assert_eq!(result, Ok(()));
    assert_eq!(calls.get(), 3);
}

#[test]
fn records_in_any_order_keep_their_indices() {
    let mut result: BulkResult<&str, String> = BulkResult::new();
    assert!(result.is_complete_success());
    result.record(2, Ok("c"));
    result.record(0, Err(TaskFailure::Job(String::from("boom"))));
    result.record(3, Err(TaskFailure::DryRun));
    result.record(1, Ok("b"));
    assert_eq!(result.successful, vec!["c", "b"]);
    assert_eq!(
        result.failed,
        vec![(0, TaskFailure::Job(String::from("boom"))), (3, TaskFailure::DryRun)]
    );
    assert_eq!(result.success_count() + result.failure_count(), 4);
}

#[test]
fn summarize_counts_or_hands_on_the_first_failure() {
    let outcomes = || -> Vec<Result<(), String>> {
        vec![Ok(()), Err(String::from("first")), Ok(()), Err(String::from("second"))]
    };
    assert_eq!(
        summarize(outcomes(), false),
        Err(BulkError::MultipleFailed { count: 2 })
    );
    assert_eq!(
        summarize(outcomes(), true),
        Err(BulkError::Task(String::from("first")))
    );
    assert_eq!(summarize(Vec::<Result<(), String>>::new(), false), Ok(()));
    assert_eq!(summarize(vec![Ok::<(), String>(())], true), Ok(()));
}
