//! Settings read from the environment.
use vstd::prelude::*;
use vstd::string::StringExecFns;
use crate::codec::str_equals;

verus! {

/// The message for an environment variable that is not set.
pub fn var_not_defined(var: &str) -> (message: String)
    ensures
        message@ == var@ + " is not defined in the environment"@,
{
    let mut message = var.to_owned();
    message.append(" is not defined in the environment");
    message
}

/// How long, in milliseconds, the server loops pause under the `RUST_ENV`
/// setting `rust_env`: 500 under `debug` and `trace`, else none.
pub fn loop_sleep_duration(rust_env: &str) -> (millis: u64)
    ensures
        millis == if rust_env@ == "debug"@ || rust_env@ == "trace"@ {
            500u64
        } else {
            0u64
        },
{
    if str_equals(rust_env, "debug") || str_equals(rust_env, "trace") {
        500
    } else {
        0
    }
}

} // verus!
