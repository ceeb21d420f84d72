//! Signalling the process group of a child process.
use vstd::prelude::*;

verus! {

/// The `kill` target for the process group led by `pid` (`signal_process_group`): the
/// negated id, when the id fits in an `i32`; else no target, and no signal is sent.
pub fn process_group_target(pid: u32) -> (r: Option<i32>)
    ensures
        pid <= i32::MAX ==> r == Some((-(pid as int)) as i32),
        pid > i32::MAX ==> r is None,
{
    if pid <= 2147483647u32 {
        let p = pid as i32;
        Some(-p)
    } else {
        None
    }
}

} // verus!
