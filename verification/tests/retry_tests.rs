use service_commons::problem::Problem;
use service_commons::retry::{Retrier, RetryStep, Try};
use std::cell::RefCell;

#[test]
fn test_retry_ok() {
    let retry: Retrier = Default::default();
    let tries = RefCell::new(0);
    let pauses: RefCell<Vec<u64>> = RefCell::new(Vec::new());

    let result = retry.retry(
        &tries,
        |count_tries| {
            *count_tries.borrow_mut() += 1;
            Ok(42)
        },
        |delay| pauses.borrow_mut().push(delay),
    );

    assert_eq!(result, Ok(42));
    assert_eq!(*tries.borrow(), 1);
    assert_eq!(pauses.borrow().len(), 0);
}

#[test]
fn test_retry_all_fail() {
    let retry: Retrier = Retrier::new(5, 100);
    let tries = RefCell::new(0);
    let pauses: RefCell<Vec<u64>> = RefCell::new(Vec::new());

    let result: Result<u32, Problem> = retry.retry(
        &tries,
        |count_tries| {
            *count_tries.borrow_mut() += 1;
            Err(Problem::not_found().with_details("Always fail"))
        },
        |delay| pauses.borrow_mut().push(delay),
    );

    assert_eq!(result, Err(Problem::not_found().with_details("Always fail")));
    assert_eq!(*tries.borrow(), 5);
    let diffs = pauses.borrow();
    assert_eq!(diffs.len(), 4);
    assert!(diffs.iter().all(|d| *d > 90));
}

#[test]
fn test_retry_nfail() {
    let retry: Retrier = Retrier::new(5, 500);
    let tries = RefCell::new(0);
    let pauses: RefCell<Vec<u64>> = RefCell::new(Vec::new());

    let result = retry.retry(
        &tries,
        |count_tries| {
            let mut t = count_tries.borrow_mut();
            *t += 1;
            if *t > 2 {
                Ok(42)
            } else {
                Err(Problem::not_found().with_details("Fail"))
            }
        },
        |delay| pauses.borrow_mut().push(delay),
    );

    assert_eq!(result, Ok(42));
    assert_eq!(*tries.borrow(), 3);
    let diffs = pauses.borrow();
    assert_eq!(diffs.len(), 2);
    assert!(diffs.iter().all(|d| *d > 490));
}

#[test]
fn the_failure_of_the_last_attempt_is_returned_unchanged() {
    let retry = Retrier::new(3, 10);
    let tries = RefCell::new(0u16);
    let result: Result<u32, Problem> = retry.retry(
        &tries,
        |count| {
            let mut t = count.borrow_mut();
            *t += 1;
            Err(Problem::for_status(500 + *t, "attempt"))
        },
        |_| (),
    );
    assert_eq!(result, Err(Problem::for_status(503, "attempt")));
}

#[test]
fn a_single_attempt_is_not_retried() {
    let retry = Retrier::new(1, 100);
    let tries = RefCell::new(0);
    let pauses: RefCell<Vec<u64>> = RefCell::new(Vec::new());
    let result: Result<u32, Problem> = retry.retry(
        &tries,
        |count| {
            *count.borrow_mut() += 1;
            Err(Problem::conflict())
        },
        |delay| pauses.borrow_mut().push(delay),
    );
    assert_eq!(result, Err(Problem::conflict()));
    assert_eq!(*tries.borrow(), 1);
    assert!(pauses.borrow().is_empty());
}

#[test]
fn a_plan_of_no_attempts_still_makes_one() {
    let retry = Retrier::new(0, 100);
    let tries = RefCell::new(0);
    let result: Result<u32, Problem> = retry.retry(
        &tries,
        |count| {
            *count.borrow_mut() += 1;
            Err(Problem::conflict())
        },
        |_| (),
    );
    assert_eq!(result, Err(Problem::conflict()));
    assert_eq!(*tries.borrow(), 1);
}

#[test]
fn the_default_plan_is_five_attempts_half_a_second_apart() {
    let retry = Retrier::default();
    assert_eq!(retry.tries(), 5);
    assert_eq!(retry.delay_millis(), 500);
}

#[test]
fn a_failure_with_attempts_left_asks_for_the_next_after_the_delay() {
    let (mut actor, first) = Retrier::new(3, 250).start();
    assert_eq!(first.0, 3);
    let step: RetryStep<u8> = actor.handle(first, Err(Problem::not_found()));
    match step {
        RetryStep::RetryLater(next, delay) => {
            assert_eq!(next.0, 2);
            assert_eq!(delay, 250);
        }
        _ => panic!("expected another attempt"),
    }
}

#[test]
fn a_success_is_delivered_once() {
    let (mut actor, first) = Retrier::new(3, 250).start();
    let step: RetryStep<u8> = actor.handle(first, Ok(7));
    assert!(matches!(step, RetryStep::Deliver(Ok(7))));
    let again: RetryStep<u8> = actor.handle(Try(2), Ok(8));
    assert!(matches!(again, RetryStep::Dropped));
}

#[test]
fn the_last_failure_is_delivered() {
    let (mut actor, _) = Retrier::new(3, 250).start();
    let step: RetryStep<u8> = actor.handle(Try(1), Err(Problem::forbidden()));
    match step {
        RetryStep::Deliver(Err(problem)) => assert_eq!(problem, Problem::forbidden()),
        _ => panic!("expected the failure"),
    }
}
