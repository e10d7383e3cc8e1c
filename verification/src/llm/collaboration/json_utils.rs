use vstd::prelude::*;
use crate::text::str_eq;

verus! {

/// The complaint about a refinement that lists no changes.
pub open spec fn no_changes_message() -> Seq<char> {
    "Refinement failed: No changes were made to the proposal. LLM did not provide any changes_made entries."@
}

/// The complaint about a refinement whose details did not change.
pub open spec fn same_details_message() -> Seq<char> {
    "Refinement failed: LLM claimed changes, but proposal 'details' are identical. Halting to prevent hallucinated progress."@
}

/// Checks that a refinement is real: it lists at least one change
/// (`changes_made` entries), and its details differ from the current
/// proposal's (each given as its indented JSON text).
pub fn validate_refinement_changes(changes_made: usize, current_details: &str, refined_details: &str)
    -> (r: Result<(), String>)
    ensures
        changes_made == 0 ==> (r matches Err(m) && m@ == no_changes_message()),
        changes_made > 0 && current_details@ == refined_details@ ==> (r matches Err(m) && m@ == same_details_message()),
        changes_made > 0 && current_details@ != refined_details@ ==> r is Ok,
{
    if changes_made == 0 {
        return Err(String::from_str(
            "Refinement failed: No changes were made to the proposal. LLM did not provide any changes_made entries.",
        ));
    }
    if str_eq(current_details, refined_details) {
        return Err(String::from_str(
            "Refinement failed: LLM claimed changes, but proposal 'details' are identical. Halting to prevent hallucinated progress.",
        ));
    }
    Ok(())
}

} // verus!
