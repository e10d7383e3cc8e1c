pub mod fields;
pub mod json_utils;

use vstd::prelude::*;
use crate::text::{decimal_nat, push_decimal_u64, push_str_chars, string_from_chars};

verus! {

/// A fixed part of the collaboration prompts.
pub const DISTIL_FEEDBACK_SYSTEM: &'static str = "You are a Feedback Distillation Agent. Your task is to analyse feedback from multiple specialists and synthesise it into a single, non-redundant, and prioritised set of actionable instructions. Consolidate similar points, identify contradictions, and summarise the core message.";

/// A fixed part of the collaboration prompts.
pub const DISTIL_FEEDBACK_USER_0: &'static str = "GOAL: ";

/// A fixed part of the collaboration prompts.
pub const DISTIL_FEEDBACK_USER_1: &'static str = "\n\nPROPOSAL CONCEPT:\n";

/// A fixed part of the collaboration prompts.
pub const DISTIL_FEEDBACK_USER_2: &'static str = "\n\nRAW TEAM FEEDBACK:\n";

/// A fixed part of the collaboration prompts.
pub const DISTIL_FEEDBACK_USER_3: &'static str = "\n\nSynthesize the raw feedback into a unified summary. De-duplicate points and prioritise the most critical concerns that block progress. \n\nRespond with JSON: { \"summary\": \"(string) one-paragraph overview of the team's sentiment\", \"prioritised_concerns\": [\"(string) list of the most critical issues to fix\"], \"actionable_suggestions\": [\"(string) list of concrete, consolidated suggestions\"] }";

/// A fixed part of the collaboration prompts.
pub const INITIAL_PROPOSAL_SYSTEM_0: &'static str = "You are ";

/// A fixed part of the collaboration prompts.
pub const INITIAL_PROPOSAL_SYSTEM_1: &'static str = ", a ";

/// A fixed part of the collaboration prompts.
pub const INITIAL_PROPOSAL_SYSTEM_2: &'static str = " specialising in ";

/// A fixed part of the collaboration prompts.
pub const INITIAL_PROPOSAL_SYSTEM_3: &'static str = ". Your task is to create the team's INITIAL proposal.";

/// A fixed part of the collaboration prompts.
pub const INITIAL_PROPOSAL_USER_0: &'static str = "TASK: ";

/// A fixed part of the collaboration prompts.
pub const INITIAL_PROPOSAL_USER_1: &'static str = "";

/// A fixed part of the collaboration prompts.
pub const INITIAL_PROPOSAL_USER_2: &'static str = "\n\nCreate a SINGLE, SPECIFIC, and DETAILED initial proposal to achieve the task. This will be the foundation for team collaboration. Be concrete and implementable. \n\nRespond with JSON containing: 'concept' (string), 'details' (object with specific elements), 'rationale' (string explaining the approach).";

/// A fixed part of the collaboration prompts.
pub const REFINE_PROPOSAL_SYSTEM_0: &'static str = "You are a refinement specialist, embodying the role of ";

/// A fixed part of the collaboration prompts.
pub const REFINE_PROPOSAL_SYSTEM_1: &'static str = ". Your task is to intelligently upgrade a proposal based on team feedback.";

/// A fixed part of the collaboration prompts.
pub const REFINE_PROPOSAL_USER_0: &'static str = "TASK: ";

/// A fixed part of the collaboration prompts.
pub const REFINE_PROPOSAL_USER_1: &'static str = "\nITERATION: ";

/// A fixed part of the collaboration prompts.
pub const REFINE_PROPOSAL_USER_2: &'static str = "\n\nCURRENT PROPOSAL:\n";

/// A fixed part of the collaboration prompts.
pub const REFINE_PROPOSAL_USER_3: &'static str = "\n\nDISTILLED TEAM FEEDBACK (Prioritised):\n";

/// A fixed part of the collaboration prompts.
pub const REFINE_PROPOSAL_USER_4: &'static str = "\n\nYou MUST refine the proposal by addressing the specific concerns and suggestions from the feedback. Make concrete, technical changes to the 'details' object.\n\nCRITICAL REQUIREMENTS:\n1. The `details` object MUST be changed. Do not just change the rationale.\n2. The `changes_made` array MUST list the specific, technical modifications (e.g., 'Changed colour from #FFFFFF to #000000').\n3. Do NOT list conceptual changes like 'conducted research'.\n\nRespond with JSON containing: 'concept' (string), 'details' (UPDATED object), 'rationale' (string explaining changes), 'changes_made' (array of strings describing technical changes).";

/// A fixed part of the collaboration prompts.
pub const SPECIALIST_FEEDBACK_SYSTEM_0: &'static str = "You are ";

/// A fixed part of the collaboration prompts.
pub const SPECIALIST_FEEDBACK_SYSTEM_1: &'static str = ", a ";

/// A fixed part of the collaboration prompts.
pub const SPECIALIST_FEEDBACK_SYSTEM_2: &'static str = " specialising in ";

/// A fixed part of the collaboration prompts.
pub const SPECIALIST_FEEDBACK_SYSTEM_3: &'static str = ". Provide expert feedback on a proposal from your domain.";

/// A fixed part of the collaboration prompts.
pub const SPECIALIST_FEEDBACK_USER_0: &'static str = "TASK: ";

/// A fixed part of the collaboration prompts.
pub const SPECIALIST_FEEDBACK_USER_1: &'static str = "\nITERATION: ";

/// A fixed part of the collaboration prompts.
pub const SPECIALIST_FEEDBACK_USER_2: &'static str = "\n\nTEAM PROPOSAL TO REVIEW:\n";

/// A fixed part of the collaboration prompts.
pub const SPECIALIST_FEEDBACK_USER_3: &'static str = "\n\nAnalyse this from your specific area of expertise (";

/// A fixed part of the collaboration prompts.
pub const SPECIALIST_FEEDBACK_USER_4: &'static str = "). Provide constructive, actionable feedback. \n\nRespond with JSON containing: 'strengths' (array of strings), 'concerns' (array of strings), 'suggestions' (array of strings).";

/// A fixed part of the collaboration prompts.
pub const ASSESS_PROPOSAL_SYSTEM_0: &'static str = "You are ";

/// A fixed part of the collaboration prompts.
pub const ASSESS_PROPOSAL_SYSTEM_1: &'static str = ", an arbiter with expertise in ";

/// A fixed part of the collaboration prompts.
pub const ASSESS_PROPOSAL_SYSTEM_2: &'static str = ". Your role is to be a STRICT and IMPARTIAL judge of whether a proposal definitively achieves the goal. YOU MUST RESPOND ONLY WITH VALID JSON - NO OTHER TEXT.";

/// A fixed part of the collaboration prompts.
pub const ASSESS_PROPOSAL_USER_0: &'static str = "GOAL: ";

/// A fixed part of the collaboration prompts.
pub const ASSESS_PROPOSAL_USER_1: &'static str = "\nITERATION: ";

/// A fixed part of the collaboration prompts.
pub const ASSESS_PROPOSAL_USER_2: &'static str = "\n\nPROPOSAL TO ASSESS:\n";

/// A fixed part of the collaboration prompts.
pub const ASSESS_PROPOSAL_USER_3: &'static str = "\n\nDISTILLED TEAM FEEDBACK:\n";

/// A fixed part of the collaboration prompts.
pub const ASSESS_PROPOSAL_USER_4: &'static str = "\n\nPerform a RIGOROUS assessment. The goal is achieved ONLY if all critical concerns from the team feedback have been demonstrably resolved in the proposal details and the solution is complete and robust. Surface-level coherence is insufficient.\n\nCRITICAL: You MUST respond with ONLY valid JSON in this exact format, with no additional text, explanations, or markdown formatting:\n\n{\n  \"goal_achieved\": true,\n  \"confidence\": 0.85,\n  \"reasoning\": \"Your detailed analysis here\",\n  \"missing_elements\": [\"List any remaining gaps\"]\n}\n\nThe goal_achieved field MUST be either true or false (boolean).\nThe confidence field MUST be a number between 0.0 and 1.0.\nDo not include any text before or after the JSON.";

/// A fixed part of the collaboration prompts.
pub const BREAKOUT_STRATEGY_SYSTEM: &'static str = "You are a Summarization Agent for breaking collaboration deadlocks. Analyse a stalled process and create a concise, actionable summary to help the team refocus.";

/// A fixed part of the collaboration prompts.
pub const BREAKOUT_STRATEGY_USER_0: &'static str = "GOAL: ";

/// A fixed part of the collaboration prompts.
pub const BREAKOUT_STRATEGY_USER_1: &'static str = "\nSTALLED AT ITERATION: ";

/// A fixed part of the collaboration prompts.
pub const BREAKOUT_STRATEGY_USER_2: &'static str = "\n\nThe team is stuck. Analyse the situation based on the final proposal and the history of feedback. Identify the core disagreements and a clear path forward.\n\nFINAL PROPOSAL:\n";

/// A fixed part of the collaboration prompts.
pub const BREAKOUT_STRATEGY_USER_3: &'static str = "\n\nFEEDBACK HISTORY (Summaries):\n";

/// A fixed part of the collaboration prompts.
pub const BREAKOUT_STRATEGY_USER_4: &'static str = "\n\nCreate a summary identifying:\n1. Core unresolved issues.\n2. A clear, single recommendation for the team's next focus.\n\nRespond with JSON: { 'situation_summary': \"(string)\", 'critical_blockers': [\"(string)\"], 'recommended_focus': \"(string) directive for the team's next attempt\" }";

/// A fixed part of the collaboration prompts.
pub const PROGRESS_EVALUATION_SYSTEM: &'static str = "You are a Progress Evaluation Agent. Objectively score the meaningful progress between two iterations on a scale of 1-10. 1=Regressive/Superficial, 5=Moderate, 10=Exceptional.";

/// A fixed part of the collaboration prompts.
pub const PROGRESS_EVALUATION_USER_0: &'static str = "ITERATION: ";

/// A fixed part of the collaboration prompts.
pub const PROGRESS_EVALUATION_USER_1: &'static str = "\n\nEvaluate if the CURRENT PROPOSAL meaningfully addresses the PREVIOUS FEEDBACK compared to the PREVIOUS PROPOSAL. Focus on concrete changes listed in 'changes_made'.\n\nPREVIOUS PROPOSAL:\n";

/// A fixed part of the collaboration prompts.
pub const PROGRESS_EVALUATION_USER_2: &'static str = "\n\nPREVIOUS FEEDBACK:\n";

/// A fixed part of the collaboration prompts.
pub const PROGRESS_EVALUATION_USER_3: &'static str = "\n\nCURRENT PROPOSAL'S CLAIMED CHANGES:\n";

/// A fixed part of the collaboration prompts.
pub const PROGRESS_EVALUATION_USER_4: &'static str = "\n\nCURRENT FEEDBACK SUMMARY:\n";

/// A fixed part of the collaboration prompts.
pub const PROGRESS_EVALUATION_USER_5: &'static str = "\n\nVerify if the changes are real and address the core of the feedback. Superficial changes (wording, version bumps) are low-score. Significant technical improvements that resolve concerns are high-score.\n\nRespond with JSON: { 'score': (integer 1-10), 'reasoning': \"(string) Justify the score based on change verification.\" }";

/// A fixed part of the collaboration prompts.
pub const FOCUS_LINE_0: &'static str = "\nCRITICAL FOCUS (from previous stalemate): ";

/// A fixed part of the collaboration prompts.
pub const FOCUS_LINE_1: &'static str = "";

/// The line a focus left by an earlier stalemate adds to a task, or nothing.
pub open spec fn focus_line(focus: Option<&str>) -> Seq<char> {
    match focus {
        Some(f) => FOCUS_LINE_0@ + f@ + FOCUS_LINE_1@,
        None => Seq::empty(),
    }
}

fn push_focus(out: &mut Vec<char>, focus: Option<&str>)
    ensures
        final(out)@ == old(out)@ + focus_line(focus),
{
    match focus {
        Some(f) => {
            push_str_chars(out, FOCUS_LINE_0);
            push_str_chars(out, f);
            push_str_chars(out, FOCUS_LINE_1);
            assert(out@ =~= old(out)@ + focus_line(focus));
        },
        None => {
            assert(out@ =~= old(out)@ + focus_line(focus));
        },
    }
}

/// The prompts collaborating agents are asked with, each a system text and a
/// user text; proposals and feedback come in as their JSON texts.
pub struct CollaborationPrompts;

impl CollaborationPrompts {
    /// The prompts that ask for the team's feedback to be distilled.
    pub fn distil_feedback_prompt(task_description: &str, proposal_concept: &str, all_feedback: &str) -> (r: (String, String))
        ensures
            r.0@ == DISTIL_FEEDBACK_SYSTEM@,
            r.1@ == DISTIL_FEEDBACK_USER_0@ + task_description@ + DISTIL_FEEDBACK_USER_1@ + proposal_concept@ + DISTIL_FEEDBACK_USER_2@ + all_feedback@ + DISTIL_FEEDBACK_USER_3@,
    {
        let mut system: Vec<char> = Vec::new();
        push_str_chars(&mut system, DISTIL_FEEDBACK_SYSTEM);
        let mut user: Vec<char> = Vec::new();
        push_str_chars(&mut user, DISTIL_FEEDBACK_USER_0);
        push_str_chars(&mut user, task_description);
        push_str_chars(&mut user, DISTIL_FEEDBACK_USER_1);
        push_str_chars(&mut user, proposal_concept);
        push_str_chars(&mut user, DISTIL_FEEDBACK_USER_2);
        push_str_chars(&mut user, all_feedback);
        push_str_chars(&mut user, DISTIL_FEEDBACK_USER_3);
        proof {
            assert(system@ =~= DISTIL_FEEDBACK_SYSTEM@);
            assert(user@ =~= DISTIL_FEEDBACK_USER_0@ + task_description@ + DISTIL_FEEDBACK_USER_1@ + proposal_concept@ + DISTIL_FEEDBACK_USER_2@ + all_feedback@ + DISTIL_FEEDBACK_USER_3@);
        }
        (string_from_chars(system.as_slice()), string_from_chars(user.as_slice()))
    }

    /// The prompts that ask the lead agent for the team's first proposal; a focus left by an earlier stalemate is added to the task.
    pub fn initial_proposal_prompt(agent_name: &str, agent_role: &str, agent_specialisation: &str, task_description: &str, recommended_focus: Option<&str>) -> (r: (String, String))
        ensures
            r.0@ == INITIAL_PROPOSAL_SYSTEM_0@ + agent_name@ + INITIAL_PROPOSAL_SYSTEM_1@ + agent_role@ + INITIAL_PROPOSAL_SYSTEM_2@ + agent_specialisation@ + INITIAL_PROPOSAL_SYSTEM_3@,
            r.1@ == INITIAL_PROPOSAL_USER_0@ + task_description@ + INITIAL_PROPOSAL_USER_1@ + focus_line(recommended_focus) + INITIAL_PROPOSAL_USER_2@,
    {
        let mut system: Vec<char> = Vec::new();
        push_str_chars(&mut system, INITIAL_PROPOSAL_SYSTEM_0);
        push_str_chars(&mut system, agent_name);
        push_str_chars(&mut system, INITIAL_PROPOSAL_SYSTEM_1);
        push_str_chars(&mut system, agent_role);
        push_str_chars(&mut system, INITIAL_PROPOSAL_SYSTEM_2);
        push_str_chars(&mut system, agent_specialisation);
        push_str_chars(&mut system, INITIAL_PROPOSAL_SYSTEM_3);
        let mut user: Vec<char> = Vec::new();
        push_str_chars(&mut user, INITIAL_PROPOSAL_USER_0);
        push_str_chars(&mut user, task_description);
        push_str_chars(&mut user, INITIAL_PROPOSAL_USER_1);
        push_focus(&mut user, recommended_focus);
        push_str_chars(&mut user, INITIAL_PROPOSAL_USER_2);
        proof {
            assert(system@ =~= INITIAL_PROPOSAL_SYSTEM_0@ + agent_name@ + INITIAL_PROPOSAL_SYSTEM_1@ + agent_role@ + INITIAL_PROPOSAL_SYSTEM_2@ + agent_specialisation@ + INITIAL_PROPOSAL_SYSTEM_3@);
            assert(user@ =~= INITIAL_PROPOSAL_USER_0@ + task_description@ + INITIAL_PROPOSAL_USER_1@ + focus_line(recommended_focus) + INITIAL_PROPOSAL_USER_2@);
        }
        (string_from_chars(system.as_slice()), string_from_chars(user.as_slice()))
    }

    /// The prompts that ask the lead specialist to refine the proposal by the distilled feedback.
    pub fn refine_proposal_prompt(agent_name: &str, task_description: &str, current_proposal: &str, distilled_feedback: &str, iteration: u32) -> (r: (String, String))
        ensures
            r.0@ == REFINE_PROPOSAL_SYSTEM_0@ + agent_name@ + REFINE_PROPOSAL_SYSTEM_1@,
            r.1@ == REFINE_PROPOSAL_USER_0@ + task_description@ + REFINE_PROPOSAL_USER_1@ + decimal_nat(iteration as nat) + REFINE_PROPOSAL_USER_2@ + current_proposal@ + REFINE_PROPOSAL_USER_3@ + distilled_feedback@ + REFINE_PROPOSAL_USER_4@,
    {
        let mut system: Vec<char> = Vec::new();
        push_str_chars(&mut system, REFINE_PROPOSAL_SYSTEM_0);
        push_str_chars(&mut system, agent_name);
        push_str_chars(&mut system, REFINE_PROPOSAL_SYSTEM_1);
        let mut user: Vec<char> = Vec::new();
        push_str_chars(&mut user, REFINE_PROPOSAL_USER_0);
        push_str_chars(&mut user, task_description);
        push_str_chars(&mut user, REFINE_PROPOSAL_USER_1);
        push_decimal_u64(iteration as u64, &mut user);
        push_str_chars(&mut user, REFINE_PROPOSAL_USER_2);
        push_str_chars(&mut user, current_proposal);
        push_str_chars(&mut user, REFINE_PROPOSAL_USER_3);
        push_str_chars(&mut user, distilled_feedback);
        push_str_chars(&mut user, REFINE_PROPOSAL_USER_4);
        proof {
            assert(system@ =~= REFINE_PROPOSAL_SYSTEM_0@ + agent_name@ + REFINE_PROPOSAL_SYSTEM_1@);
            assert(user@ =~= REFINE_PROPOSAL_USER_0@ + task_description@ + REFINE_PROPOSAL_USER_1@ + decimal_nat(iteration as nat) + REFINE_PROPOSAL_USER_2@ + current_proposal@ + REFINE_PROPOSAL_USER_3@ + distilled_feedback@ + REFINE_PROPOSAL_USER_4@);
        }
        (string_from_chars(system.as_slice()), string_from_chars(user.as_slice()))
    }

    /// The prompts that ask a specialist for feedback on the proposal.
    pub fn specialist_feedback_prompt(agent_name: &str, agent_role: &str, agent_specialisation: &str, task_description: &str, proposal: &str, iteration: u32) -> (r: (String, String))
        ensures
            r.0@ == SPECIALIST_FEEDBACK_SYSTEM_0@ + agent_name@ + SPECIALIST_FEEDBACK_SYSTEM_1@ + agent_role@ + SPECIALIST_FEEDBACK_SYSTEM_2@ + agent_specialisation@ + SPECIALIST_FEEDBACK_SYSTEM_3@,
            r.1@ == SPECIALIST_FEEDBACK_USER_0@ + task_description@ + SPECIALIST_FEEDBACK_USER_1@ + decimal_nat(iteration as nat) + SPECIALIST_FEEDBACK_USER_2@ + proposal@ + SPECIALIST_FEEDBACK_USER_3@ + agent_specialisation@ + SPECIALIST_FEEDBACK_USER_4@,
    {
        let mut system: Vec<char> = Vec::new();
        push_str_chars(&mut system, SPECIALIST_FEEDBACK_SYSTEM_0);
        push_str_chars(&mut system, agent_name);
        push_str_chars(&mut system, SPECIALIST_FEEDBACK_SYSTEM_1);
        push_str_chars(&mut system, agent_role);
        push_str_chars(&mut system, SPECIALIST_FEEDBACK_SYSTEM_2);
        push_str_chars(&mut system, agent_specialisation);
        push_str_chars(&mut system, SPECIALIST_FEEDBACK_SYSTEM_3);
        let mut user: Vec<char> = Vec::new();
        push_str_chars(&mut user, SPECIALIST_FEEDBACK_USER_0);
        push_str_chars(&mut user, task_description);
        push_str_chars(&mut user, SPECIALIST_FEEDBACK_USER_1);
        push_decimal_u64(iteration as u64, &mut user);
        push_str_chars(&mut user, SPECIALIST_FEEDBACK_USER_2);
        push_str_chars(&mut user, proposal);
        push_str_chars(&mut user, SPECIALIST_FEEDBACK_USER_3);
        push_str_chars(&mut user, agent_specialisation);
        push_str_chars(&mut user, SPECIALIST_FEEDBACK_USER_4);
        proof {
            assert(system@ =~= SPECIALIST_FEEDBACK_SYSTEM_0@ + agent_name@ + SPECIALIST_FEEDBACK_SYSTEM_1@ + agent_role@ + SPECIALIST_FEEDBACK_SYSTEM_2@ + agent_specialisation@ + SPECIALIST_FEEDBACK_SYSTEM_3@);
            assert(user@ =~= SPECIALIST_FEEDBACK_USER_0@ + task_description@ + SPECIALIST_FEEDBACK_USER_1@ + decimal_nat(iteration as nat) + SPECIALIST_FEEDBACK_USER_2@ + proposal@ + SPECIALIST_FEEDBACK_USER_3@ + agent_specialisation@ + SPECIALIST_FEEDBACK_USER_4@);
        }
        (string_from_chars(system.as_slice()), string_from_chars(user.as_slice()))
    }

    /// The prompts that ask the arbiter whether the proposal achieves the goal.
    pub fn assess_proposal_prompt(agent_name: &str, agent_specialisation: &str, task_description: &str, proposal: &str, distilled_feedback: &str, iteration: u32) -> (r: (String, String))
        ensures
            r.0@ == ASSESS_PROPOSAL_SYSTEM_0@ + agent_name@ + ASSESS_PROPOSAL_SYSTEM_1@ + agent_specialisation@ + ASSESS_PROPOSAL_SYSTEM_2@,
            r.1@ == ASSESS_PROPOSAL_USER_0@ + task_description@ + ASSESS_PROPOSAL_USER_1@ + decimal_nat(iteration as nat) + ASSESS_PROPOSAL_USER_2@ + proposal@ + ASSESS_PROPOSAL_USER_3@ + distilled_feedback@ + ASSESS_PROPOSAL_USER_4@,
    {
        let mut system: Vec<char> = Vec::new();
        push_str_chars(&mut system, ASSESS_PROPOSAL_SYSTEM_0);
        push_str_chars(&mut system, agent_name);
        push_str_chars(&mut system, ASSESS_PROPOSAL_SYSTEM_1);
        push_str_chars(&mut system, agent_specialisation);
        push_str_chars(&mut system, ASSESS_PROPOSAL_SYSTEM_2);
        let mut user: Vec<char> = Vec::new();
        push_str_chars(&mut user, ASSESS_PROPOSAL_USER_0);
        push_str_chars(&mut user, task_description);
        push_str_chars(&mut user, ASSESS_PROPOSAL_USER_1);
        push_decimal_u64(iteration as u64, &mut user);
        push_str_chars(&mut user, ASSESS_PROPOSAL_USER_2);
        push_str_chars(&mut user, proposal);
        push_str_chars(&mut user, ASSESS_PROPOSAL_USER_3);
        push_str_chars(&mut user, distilled_feedback);
        push_str_chars(&mut user, ASSESS_PROPOSAL_USER_4);
        proof {
            assert(system@ =~= ASSESS_PROPOSAL_SYSTEM_0@ + agent_name@ + ASSESS_PROPOSAL_SYSTEM_1@ + agent_specialisation@ + ASSESS_PROPOSAL_SYSTEM_2@);
            assert(user@ =~= ASSESS_PROPOSAL_USER_0@ + task_description@ + ASSESS_PROPOSAL_USER_1@ + decimal_nat(iteration as nat) + ASSESS_PROPOSAL_USER_2@ + proposal@ + ASSESS_PROPOSAL_USER_3@ + distilled_feedback@ + ASSESS_PROPOSAL_USER_4@);
        }
        (string_from_chars(system.as_slice()), string_from_chars(user.as_slice()))
    }

    /// The prompts that ask for a way out of a stalled collaboration.
    pub fn breakout_strategy_prompt(task_description: &str, current_proposal: &str, feedback_history: &str, iteration: u32) -> (r: (String, String))
        ensures
            r.0@ == BREAKOUT_STRATEGY_SYSTEM@,
            r.1@ == BREAKOUT_STRATEGY_USER_0@ + task_description@ + BREAKOUT_STRATEGY_USER_1@ + decimal_nat(iteration as nat) + BREAKOUT_STRATEGY_USER_2@ + current_proposal@ + BREAKOUT_STRATEGY_USER_3@ + feedback_history@ + BREAKOUT_STRATEGY_USER_4@,
    {
        let mut system: Vec<char> = Vec::new();
        push_str_chars(&mut system, BREAKOUT_STRATEGY_SYSTEM);
        let mut user: Vec<char> = Vec::new();
        push_str_chars(&mut user, BREAKOUT_STRATEGY_USER_0);
        push_str_chars(&mut user, task_description);
        push_str_chars(&mut user, BREAKOUT_STRATEGY_USER_1);
        push_decimal_u64(iteration as u64, &mut user);
        push_str_chars(&mut user, BREAKOUT_STRATEGY_USER_2);
        push_str_chars(&mut user, current_proposal);
        push_str_chars(&mut user, BREAKOUT_STRATEGY_USER_3);
        push_str_chars(&mut user, feedback_history);
        push_str_chars(&mut user, BREAKOUT_STRATEGY_USER_4);
        proof {
            assert(system@ =~= BREAKOUT_STRATEGY_SYSTEM@);
            assert(user@ =~= BREAKOUT_STRATEGY_USER_0@ + task_description@ + BREAKOUT_STRATEGY_USER_1@ + decimal_nat(iteration as nat) + BREAKOUT_STRATEGY_USER_2@ + current_proposal@ + BREAKOUT_STRATEGY_USER_3@ + feedback_history@ + BREAKOUT_STRATEGY_USER_4@);
        }
        (string_from_chars(system.as_slice()), string_from_chars(user.as_slice()))
    }

    /// The prompts that ask for a score of the progress between two iterations.
    pub fn progress_evaluation_prompt(previous_proposal: &str, previous_feedback: &str, claimed_changes: &str, current_feedback: &str, iteration: u32) -> (r: (String, String))
        ensures
            r.0@ == PROGRESS_EVALUATION_SYSTEM@,
            r.1@ == PROGRESS_EVALUATION_USER_0@ + decimal_nat(iteration as nat) + PROGRESS_EVALUATION_USER_1@ + previous_proposal@ + PROGRESS_EVALUATION_USER_2@ + previous_feedback@ + PROGRESS_EVALUATION_USER_3@ + claimed_changes@ + PROGRESS_EVALUATION_USER_4@ + current_feedback@ + PROGRESS_EVALUATION_USER_5@,
    {
        let mut system: Vec<char> = Vec::new();
        push_str_chars(&mut system, PROGRESS_EVALUATION_SYSTEM);
        let mut user: Vec<char> = Vec::new();
        push_str_chars(&mut user, PROGRESS_EVALUATION_USER_0);
        push_decimal_u64(iteration as u64, &mut user);
        push_str_chars(&mut user, PROGRESS_EVALUATION_USER_1);
        push_str_chars(&mut user, previous_proposal);
        push_str_chars(&mut user, PROGRESS_EVALUATION_USER_2);
        push_str_chars(&mut user, previous_feedback);
        push_str_chars(&mut user, PROGRESS_EVALUATION_USER_3);
        push_str_chars(&mut user, claimed_changes);
        push_str_chars(&mut user, PROGRESS_EVALUATION_USER_4);
        push_str_chars(&mut user, current_feedback);
        push_str_chars(&mut user, PROGRESS_EVALUATION_USER_5);
        proof {
            assert(system@ =~= PROGRESS_EVALUATION_SYSTEM@);
            assert(user@ =~= PROGRESS_EVALUATION_USER_0@ + decimal_nat(iteration as nat) + PROGRESS_EVALUATION_USER_1@ + previous_proposal@ + PROGRESS_EVALUATION_USER_2@ + previous_feedback@ + PROGRESS_EVALUATION_USER_3@ + claimed_changes@ + PROGRESS_EVALUATION_USER_4@ + current_feedback@ + PROGRESS_EVALUATION_USER_5@);
        }
        (string_from_chars(system.as_slice()), string_from_chars(user.as_slice()))
    }
}

} // verus!
