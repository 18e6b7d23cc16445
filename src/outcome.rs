//! What the governor makes of its calls to the container runtime and the sidecar.
use vstd::prelude::*;
use vstd::string::StringExecFns;
use crate::model::GovernorError;

verus! {

/// The path on the sidecar that receives each cycle's view.
pub const LOG_PATH: &'static str = "/log";

/// The path on the sidecar that renders the final report.
pub const REPORT_PATH: &'static str = "/generate-graphs";

/// The outcome of a stop command: success, or the runtime's diagnostic text.
pub fn stop_result(succeeded: bool, stderr: String) -> (r: Result<(), GovernorError>)
    ensures
        succeeded ==> r == Ok::<(), GovernorError>(()),
        !succeeded ==> r == Err::<(), GovernorError>(GovernorError::RuntimeCommandFailed { stderr }),
{
    if succeeded {
        Ok(())
    } else {
        Err(GovernorError::RuntimeCommandFailed { stderr })
    }
}

/// The outcome of a sidecar call that got an answer with HTTP `status`:
/// success for 200..=299, `SidecarRejected` otherwise.
pub fn sidecar_result(status: u16) -> (r: Result<(), GovernorError>)
    ensures
        200 <= status <= 299 ==> r == Ok::<(), GovernorError>(()),
        !(200 <= status <= 299) ==> r == Err::<(), GovernorError>(
            GovernorError::SidecarRejected { status },
        ),
{
    if 200 <= status && status <= 299 {
        Ok(())
    } else {
        Err(GovernorError::SidecarRejected { status })
    }
}

/// The address that receives each cycle's view, on the sidecar at `base`.
pub fn log_url(base: &str) -> (r: String)
    ensures
        r@ == base@ + LOG_PATH@,
{
    String::from_str(base).concat(LOG_PATH)
}

/// The address that renders the final report, on the sidecar at `base`.
pub fn report_url(base: &str) -> (r: String)
    ensures
        r@ == base@ + REPORT_PATH@,
{
    String::from_str(base).concat(REPORT_PATH)
}

} // verus!
