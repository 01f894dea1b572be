//! What a worker of the pool decides: whether to go on, and what to report
//! of the job it ran.

use vstd::prelude::*;

verus! {

/// What a worker does after it has waited for a job.
pub enum WorkerAction<R> {
    /// Send this report of a failed job, then wait for the next job.
    Report(R),
    /// Wait for the next job.
    Wait,
    /// Leave the loop: the queue is closed.
    Stop,
}

/// The report that a worker sends for the outcome of a job: none for a job
/// that succeeded, whose result is dropped; for a job that failed, what the
/// pool's error handler makes of the error.
pub fn job_report<T, E, R, F: Fn(E) -> R>(outcome: Result<T, E>, err_handler: &F) -> (report:
    Option<R>)
    requires
        outcome matches Err(e) ==> call_requires(*err_handler, (e,)),
    ensures
        match outcome {
            Ok(_) => report is None,
            Err(e) => report matches Some(r) && call_ensures(*err_handler, (e,), r),
        },
{
    match outcome {
        Ok(_) => None,
        Err(e) => Some(err_handler(e)),
    }
}

/// Whether `action` is what a worker does for the outcome of a job.
pub open spec fn follows<T, E, R, F: Fn(E) -> R>(
    outcome: Result<T, E>,
    err_handler: &F,
    action: WorkerAction<R>,
) -> bool {
    match outcome {
        Ok(_) => action is Wait,
        Err(e) => action matches WorkerAction::Report(r) && call_ensures(*err_handler, (e,), r),
    }
}

/// One turn of a worker's loop. Without a job the queue is closed and the
/// worker stops. A job is run; if it fails, the worker reports what the
/// error handler makes of the error; either way it then waits for the next.
pub fn worker_step<T, E, R, J: FnOnce() -> Result<T, E>, F: Fn(E) -> R>(
    message: Option<J>,
    err_handler: &F,
) -> (action: WorkerAction<R>)
    requires
        message matches Some(job) ==> call_requires(job, ()),
        forall|e: E| call_requires(*err_handler, (e,)),
    ensures
        match message {
            None => action is Stop,
            Some(job) => exists|outcome: Result<T, E>| #[trigger]
                call_ensures(job, (), outcome) && follows(outcome, err_handler, action),
        },
{
    match message {
        None => WorkerAction::Stop,
        Some(job) => {
            let outcome: Result<T, E> = job();
            let ghost ran = outcome;
            let action = match job_report(outcome, err_handler) {
                Some(report) => WorkerAction::Report(report),
                None => WorkerAction::Wait,
            };
            proof {
                assert(call_ensures(job, (), ran) && follows(ran, err_handler, action));
            }
            action
        },
    }
}

} // verus!
