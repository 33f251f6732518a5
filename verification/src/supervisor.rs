//! The service supervisor's bind-report handshake. The supervisor starts the
//! pointer listener, waits for its one bind report, and gives up at once if
//! that bind failed — without waiting on the screen listener. Only after the
//! first success does it start and await the screen listener.

use vstd::prelude::*;
use vstd::pervasive::unreached;

use crate::listener::BindResult;

verus! {

/// What the supervisor's wait for one listener's report came back with:
/// the report itself, or the news that the listener died before sending one.
#[derive(Debug, PartialEq, Eq)]
pub enum BindReport {
    Delivered(BindResult),
    ChannelClosed(String),
}

/// The supervisor's decision after the pointer endpoint's report.
#[derive(Debug, PartialEq, Eq)]
pub enum SupervisorStep {
    /// Start the screen listener and wait for its report.
    Proceed,
    /// Return this error at once, waiting on nothing further.
    Abort(String),
}

/// Decide on the pointer endpoint's bind report: only a delivered success
/// lets the service go on to the screen endpoint; a delivered failure or a
/// dead listener aborts the run with that reason, promptly.
pub fn after_first_bind(report: BindReport) -> (step: SupervisorStep)
    ensures
        (report matches BindReport::Delivered(BindResult::Success)) <==> (step is Proceed),
        report matches BindReport::Delivered(BindResult::Failure(e)) ==> step
            == SupervisorStep::Abort(e),
        report matches BindReport::ChannelClosed(e) ==> step == SupervisorStep::Abort(e),
{
    match report {
        BindReport::Delivered(BindResult::Success) => SupervisorStep::Proceed,
        BindReport::Delivered(BindResult::Failure(e)) => SupervisorStep::Abort(e),
        BindReport::ChannelClosed(e) => SupervisorStep::Abort(e),
    }
}

/// Decide on the screen endpoint's bind report: with both endpoints up the
/// service is running and the run counts as a success.
pub fn after_second_bind(report: BindReport) -> (res: Result<(), String>)
    ensures
        (report matches BindReport::Delivered(BindResult::Success)) <==> (res is Ok),
        report matches BindReport::Delivered(BindResult::Failure(e)) ==> res == Err::<(), String>(
            e,
        ),
        report matches BindReport::ChannelClosed(e) ==> res == Err::<(), String>(e),
{
    match report {
        BindReport::Delivered(BindResult::Success) => Ok(()),
        BindReport::Delivered(BindResult::Failure(e)) => Err(e),
        BindReport::ChannelClosed(e) => Err(e),
    }
}

/// The whole outcome of a run, from the reports in the order the supervisor
/// awaits them. The screen report is `None` exactly when the pointer bind
/// did not succeed: the supervisor never waited for it.
pub fn run_decision(first: BindReport, second: Option<BindReport>) -> (res: Result<(), String>)
    requires
        (first matches BindReport::Delivered(BindResult::Success)) <==> (second is Some),
    ensures
        first matches BindReport::Delivered(BindResult::Failure(e)) ==> res == Err::<(), String>(
            e,
        ),
        first matches BindReport::ChannelClosed(e) ==> res == Err::<(), String>(e),
        (first matches BindReport::Delivered(BindResult::Success)) ==> (match second {
            Some(s) => {
                &&& ((s matches BindReport::Delivered(BindResult::Success)) <==> (res is Ok))
                &&& (s matches BindReport::Delivered(BindResult::Failure(e)) ==> res == Err::<
                    (),
                    String,
                >(e))
                &&& (s matches BindReport::ChannelClosed(e) ==> res == Err::<(), String>(e))
            },
            None => false,
        }),
{
    match after_first_bind(first) {
        SupervisorStep::Abort(e) => Err(e),
        SupervisorStep::Proceed => match second {
            Some(s) => after_second_bind(s),
            None => unreached(),
        },
    }
}

/// The fixed address of the screen-streaming endpoint.
pub fn screen_endpoint_addr() -> (a: String)
    ensures
        a@ == "0.0.0.0:9002"@,
{
    "0.0.0.0:9002".to_string()
}

} // verus!
