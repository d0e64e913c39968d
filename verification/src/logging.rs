//! Logging setup.

use crate::error::FrameworkError;
use crate::filter::{law_unpadded_is_readable, readable};
use vstd::prelude::*;
use vstd::string::*;

verus! {

/// Builds a subscriber with `tracing_subscriber::fmt`, filtered by `level` and without
/// terminal colours, and installs it with `try_init` for the whole process. An error is
/// handed on as its text. Nothing is claimed of the result: it depends on what the process
/// has installed before.
///
/// The reader of directives, `Directive::parse`, cuts text at places that it took from the
/// same text without its outer white space, and panics where one lies inside a character;
/// [`readable`] leaves these filters out.
#[verifier::external_body]
fn install(level: &str) -> (installed: Result<(), String>)
    requires
        readable(level@),
{
    match tracing_subscriber::fmt().with_env_filter(level).with_ansi(false).try_init() {
        Ok(()) => Ok(()),
        Err(e) => Err(e.to_string()),
    }
}

/// Whether an installation with the filter `level` can end so.
pub closed spec fn ends_so(level: &str, installed: Result<(), String>) -> bool {
    call_ensures(install, (level,), installed)
}

/// What [`init`] returns when the installation ended so.
pub open spec fn spec_installation(installed: Result<(), String>) -> Result<(), FrameworkError> {
    match installed {
        Ok(_) => Ok(()),
        Err(text) => Err(FrameworkError::Logging(text)),
    }
}

/// What [`init`] returns when the installation ended so.
pub fn installation(installed: Result<(), String>) -> (r: Result<(), FrameworkError>)
    ensures
        r == spec_installation(installed),
{
    match installed {
        Ok(_) => Ok(()),
        Err(text) => Err(FrameworkError::Logging(text)),
    }
}

/// Sets logging up for the process, with a filter such as `"info"` or `"debug"`.
///
/// Fails where logging is set up already. The filter has to be one that
/// [`can_read`](crate::filter::can_read) takes.
pub fn init(level: &str) -> (r: Result<(), FrameworkError>)
    requires
        readable(level@),
    ensures
        exists|installed: Result<(), String>| #[trigger]
            ends_so(level, installed) && r == spec_installation(installed),
        r matches Err(error) ==> error is Logging,
{
    let installed: Result<(), String> = install(level);
    assert(ends_so(level, installed));
    installation(installed)
}

/// Sets logging up for the process at level `info`.
pub fn init_default() -> (r: Result<(), FrameworkError>)
    ensures
        call_ensures(init, ("info",), r),
        r matches Err(error) ==> error is Logging,
{
    proof {
        reveal_strlit("info");
        law_unpadded_is_readable("info"@);
    }
    init("info")
}

/// Nanoseconds from `start_ns` to `now_ns`; zero where the clock went back.
pub fn elapsed_ns(start_ns: u64, now_ns: u64) -> (r: u64)
    ensures
        r == (if now_ns >= start_ns {
            now_ns - start_ns
        } else {
            0
        }),
{
    now_ns.saturating_sub(start_ns)
}

/// An installation that succeeded is reported as such, and one that failed with its own text.
pub proof fn law_installation(installed: Result<(), String>, r: Result<(), FrameworkError>)
    requires
        call_ensures(installation, (installed,), r),
    ensures
        installed is Ok <==> r is Ok,
        installed matches Err(text) ==> r == Err::<(), FrameworkError>(
            FrameworkError::Logging(text),
        ),
{
}

/// Logging is installed with the filter that is given, `info` by default, and the outcome of
/// that installation is what is returned.
proof fn law_init_installs(
    level: &str,
    r: Result<(), FrameworkError>,
    by_default: Result<(), FrameworkError>,
)
    requires
        readable(level@),
        call_ensures(init, (level,), r),
        call_ensures(init_default, (), by_default),
    ensures
        exists|installed: Result<(), String>| #[trigger]
            call_ensures(install, (level,), installed) && (installed is Ok <==> r is Ok) && (
            installed matches Err(text) ==> r == Err::<(), FrameworkError>(
                FrameworkError::Logging(text),
            )),
        exists|installed: Result<(), String>| #[trigger]
            call_ensures(install, ("info",), installed) && (installed is Ok <==> by_default is Ok),
{
    let installed = choose|installed: Result<(), String>| #[trigger]
        ends_so(level, installed) && r == spec_installation(installed);
    assert(call_ensures(install, (level,), installed));
    reveal_strlit("info");
    law_unpadded_is_readable("info"@);
    assert(call_ensures(init, ("info",), by_default));
    let other = choose|installed: Result<(), String>| #[trigger]
        ends_so("info", installed) && by_default == spec_installation(installed);
    assert(call_ensures(install, ("info",), other));
}

/// The time that has passed is all the time from the start to now.
pub proof fn law_elapsed(start_ns: u64, now_ns: u64, r: u64)
    requires
        call_ensures(elapsed_ns, (start_ns, now_ns), r),
    ensures
        now_ns >= start_ns ==> start_ns + r == now_ns,
        now_ns < start_ns ==> r == 0,
{
}

} // verus!
