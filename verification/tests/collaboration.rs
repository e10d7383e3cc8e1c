use sleet::llm::collaboration::fields::{CHANGES_MADE, RECOMMENDED_FOCUS};
use sleet::llm::collaboration::json_utils::validate_refinement_changes;
use sleet::llm::collaboration::CollaborationPrompts;

#[test]
fn distil_prompt_carries_goal_concept_and_feedback() {
    let (system, user) = CollaborationPrompts::distil_feedback_prompt("Ship it", "\"fast path\"", "[]");
    assert!(system.starts_with("You are a Feedback Distillation Agent."));
    assert!(user.starts_with("GOAL: Ship it\n\nPROPOSAL CONCEPT:\n\"fast path\"\n\nRAW TEAM FEEDBACK:\n[]\n\nSynthesize"));
    assert!(user.ends_with("\"actionable_suggestions\": [\"(string) list of concrete, consolidated suggestions\"] }"));
}

#[test]
fn initial_prompt_adds_a_focus_only_when_given() {
    let (system, user) = CollaborationPrompts::initial_proposal_prompt("Ada", "architect", "storage", "Design a cache", None);
    assert_eq!(system, "You are Ada, a architect specialising in storage. Your task is to create the team's INITIAL proposal.");
    assert!(user.starts_with("TASK: Design a cache\n\nCreate a SINGLE"));
    let (_, user) =
        CollaborationPrompts::initial_proposal_prompt("Ada", "architect", "storage", "Design a cache", Some("latency"));
    assert!(user.starts_with("TASK: Design a cache\nCRITICAL FOCUS (from previous stalemate): latency\n\nCreate"));
}

#[test]
fn iteration_numbers_are_written_in_decimal() {
    let (_, user) = CollaborationPrompts::refine_proposal_prompt("Bo", "T", "{}", "[]", 12);
    assert!(user.starts_with("TASK: T\nITERATION: 12\n\nCURRENT PROPOSAL:\n{}\n\nDISTILLED TEAM FEEDBACK (Prioritised):\n[]"));
    let (_, user) = CollaborationPrompts::progress_evaluation_prompt("null", "null", "[\"x\"]", "{}", 3);
    assert!(user.starts_with("ITERATION: 3\n\nEvaluate"));
    assert!(user.contains("CURRENT PROPOSAL'S CLAIMED CHANGES:\n[\"x\"]\n\nCURRENT FEEDBACK SUMMARY:\n{}"));
}

#[test]
fn specialist_and_arbiter_prompts_name_their_agents() {
    let (system, user) = CollaborationPrompts::specialist_feedback_prompt("Cy", "tester", "fuzzing", "T", "{}", 1);
    assert_eq!(system, "You are Cy, a tester specialising in fuzzing. Provide expert feedback on a proposal from your domain.");
    assert!(user.contains("area of expertise (fuzzing)"));
    let (system, user) = CollaborationPrompts::assess_proposal_prompt("Di", "safety", "G", "{}", "[]", 2);
    assert!(system.starts_with("You are Di, an arbiter with expertise in safety."));
    assert!(user.starts_with("GOAL: G\nITERATION: 2\n\nPROPOSAL TO ASSESS:\n{}"));
    let (_, user) = CollaborationPrompts::breakout_strategy_prompt("G", "null", "[]", 7);
    assert!(user.starts_with("GOAL: G\nSTALLED AT ITERATION: 7\n"));
}

#[test]
fn refinements_must_change_something() {
    assert_eq!(
        validate_refinement_changes(0, "{}", "{\"a\":1}").unwrap_err(),
        "Refinement failed: No changes were made to the proposal. LLM did not provide any changes_made entries."
    );
    assert_eq!(
        validate_refinement_changes(2, "{}", "{}").unwrap_err(),
        "Refinement failed: LLM claimed changes, but proposal 'details' are identical. Halting to prevent hallucinated progress."
    );
    assert!(validate_refinement_changes(1, "{}", "{\"a\":1}").is_ok());
    assert_eq!(CHANGES_MADE, "changes_made");
    assert_eq!(RECOMMENDED_FOCUS, "recommended_focus");
}
