//! Errors in the command line.
use vstd::prelude::*;
use crate::error::{error_value, pzl_error, PzlError, PzlErrorView};

verus! {

/// The command line error with message `msg`.
pub open spec fn cli_error_value(msg: Seq<char>) -> PzlErrorView {
    error_value("命令"@, None, None, msg)
}

/// The command line error with message `msg`.
pub fn cli_error(msg: &str) -> (e: PzlError)
    ensures
        e@ == cli_error_value(msg@),
{
    pzl_error("命令", None, None, msg)
}

} // verus!
