use vstd::prelude::*;

use crate::engine::safety::{abort_message, first_forbidden};
use vstd::string::StringExecFns;

verus! {

/// The desktop guard: an empty target is refused, and so is a protected host drive or
/// one of its partitions, as in the command-line guard; any other target is accepted.
pub struct SafetyGuard;

impl SafetyGuard {
    /// Refuses an empty target with `Target path cannot be empty` and a protected host
    /// drive with the abort message naming the first matching drive; accepts anything else.
    pub fn validate_target(target: &str) -> (r: Result<(), String>)
        ensures
            target@.len() == 0 ==> (r matches Err(e) && e@ == "Target path cannot be empty"@),
            target@.len() > 0 ==> match first_forbidden(target@) {
                Some(f) => r matches Err(e) && e@ == abort_message(target@, f),
                None => r is Ok,
            },
    {
        if target.is_empty() {
            return Err(String::from_str("Target path cannot be empty"));
        }
        crate::engine::safety::SafetyGuard::refuse_host_drive(target)
    }
}

} // verus!
