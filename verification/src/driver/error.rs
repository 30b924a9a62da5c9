//! Errors in the configuration of projects and modules.
use vstd::prelude::*;
use crate::error::{error_value, pzl_error, PzlError, PzlErrorView};
use crate::extension::OptionExt;

verus! {

/// The configuration error about the file or directory `path`.
pub open spec fn config_error_value(path: Seq<char>, msg: Seq<char>) -> PzlErrorView {
    error_value("配置"@, Some(path), None, msg)
}

/// The configuration error about the file or directory `path`.
pub fn config_error(path: &String, msg: &str) -> (e: PzlError)
    ensures
        e@ == config_error_value(path@, msg@),
{
    pzl_error("配置", path.some_ref(), None, msg)
}

} // verus!
