//! Names and decisions of the executor service.

use vstd::prelude::*;

use crate::executor::data::ExecutorId;
use crate::text::{int_text, push_i64_text};

verus! {

/// The channel on which executor `executor_id` hears about its status.
pub fn status_channel_name(executor_id: &ExecutorId) -> (r: String)
    ensures
        r@ == "exec_status_"@ + int_text(executor_id.0 as int),
{
    let mut name = "exec_status_".to_owned();
    push_i64_text(&mut name, executor_id.0);
    name
}

/// What to do with the workflow run claimed for an executor: start it when it is valid,
/// complete it otherwise.
#[derive(PartialEq, Eq, Structural, Clone, Copy, Debug)]
pub enum ClaimedRunAction {
    Start,
    Complete,
}

/// The action for a claimed workflow run, by its validity.
pub fn claimed_run_action(is_valid: bool) -> (r: ClaimedRunAction)
    ensures
        r == (if is_valid {
            ClaimedRunAction::Start
        } else {
            ClaimedRunAction::Complete
        }),
{
    if is_valid {
        ClaimedRunAction::Start
    } else {
        ClaimedRunAction::Complete
    }
}

} // verus!
