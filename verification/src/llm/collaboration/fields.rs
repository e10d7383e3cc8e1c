use vstd::prelude::*;

verus! {

/// Whether the goal was reached.
pub const GOAL_ACHIEVED: &'static str = "goal_achieved";
/// How sure an assessment is.
pub const CONFIDENCE: &'static str = "confidence";
/// Why an assessment says what it says.
pub const REASONING: &'static str = "reasoning";
/// What a proposal still lacks.
pub const MISSING_ELEMENTS: &'static str = "missing_elements";
/// What a refinement changed.
pub const CHANGES_MADE: &'static str = "changes_made";
/// The details of a proposal.
pub const DETAILS: &'static str = "details";
/// The concept of a proposal.
pub const CONCEPT: &'static str = "concept";
/// A summary of feedback.
pub const SUMMARY: &'static str = "summary";
/// A progress score.
pub const SCORE: &'static str = "score";
/// What feedback praises.
pub const STRENGTHS: &'static str = "strengths";
/// What feedback worries about.
pub const CONCERNS: &'static str = "concerns";
/// What feedback proposes.
pub const SUGGESTIONS: &'static str = "suggestions";
/// The concerns distilled feedback ranks first.
pub const PRIORITISED_CONCERNS: &'static str = "prioritised_concerns";
/// The suggestions distilled feedback retains.
pub const ACTIONABLE_SUGGESTIONS: &'static str = "actionable_suggestions";
/// How a stalled collaboration stands.
pub const SITUATION_SUMMARY: &'static str = "situation_summary";
/// What blocks a stalled collaboration.
pub const CRITICAL_BLOCKERS: &'static str = "critical_blockers";
/// Where a stalled collaboration should look next.
pub const RECOMMENDED_FOCUS: &'static str = "recommended_focus";

} // verus!
