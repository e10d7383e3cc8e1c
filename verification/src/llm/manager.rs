use vstd::prelude::*;

verus! {

/// Which adapter the manager uses.
#[derive(Debug, Clone, Copy, PartialEq, Eq, Structural)]
pub enum AdapterStrategy {
    Primary,
    Preferred,
    BestAvailable,
    Fallback(usize),
}

/// The providers and models the manager uses, and how it retries.
#[derive(Debug, Clone)]
pub struct LLMManagerConfig {
    pub primary_provider: String,
    pub primary_model: String,
    pub preferred_provider: Option<String>,
    pub preferred_model: Option<String>,
    pub fallback_providers: Vec<(String, String)>,
    pub retry_attempts: usize,
    pub enable_fallback: bool,
}

/// Which adapters the manager holds.
#[derive(Debug, Clone, Copy)]
pub struct LLMManagerStatus {
    pub primary_available: bool,
    pub preferred_available: bool,
    pub fallback_count: usize,
    pub total_adapters: usize,
}

/// The status of a manager with a primary adapter, a preferred one when
/// `has_preferred`, and `fallback_count` fallbacks.
pub fn manager_status(has_preferred: bool, fallback_count: usize) -> (s: LLMManagerStatus)
    requires
        fallback_count < usize::MAX - 1,
    ensures
        s.primary_available,
        s.preferred_available == has_preferred,
        s.fallback_count == fallback_count,
        s.total_adapters == 1 + (if has_preferred { 1int } else { 0int }) + fallback_count,
{
    LLMManagerStatus {
        primary_available: true,
        preferred_available: has_preferred,
        fallback_count,
        total_adapters: 1 + if has_preferred { 1 } else { 0 } + fallback_count,
    }
}

/// The attempt after `prev` (an adapter and a 1-based attempt number) when the
/// operation keeps failing: each adapter is tried `retries` times, first the
/// preferred one when there is one, then the primary one, then, when fallback
/// is enabled, each fallback in order; `None` once all are exhausted.
pub open spec fn next_try(
    has_preferred: bool,
    retries: usize,
    enable_fallback: bool,
    fallback_count: usize,
    prev: Option<(AdapterStrategy, usize)>,
) -> Option<(AdapterStrategy, usize)> {
    match prev {
        None => if retries == 0 {
            None
        } else if has_preferred {
            Some((AdapterStrategy::Preferred, 1usize))
        } else {
            Some((AdapterStrategy::Primary, 1usize))
        },
        Some((s, a)) => if a < retries {
            Some((s, (a + 1) as usize))
        } else {
            match s {
                AdapterStrategy::Preferred => Some((AdapterStrategy::Primary, 1usize)),
                AdapterStrategy::Primary => if enable_fallback && fallback_count > 0 {
                    Some((AdapterStrategy::Fallback(0), 1usize))
                } else {
                    None
                },
                AdapterStrategy::Fallback(i) => if enable_fallback && i + 1 < fallback_count {
                    Some((AdapterStrategy::Fallback((i + 1) as usize), 1usize))
                } else {
                    None
                },
                AdapterStrategy::BestAvailable => None,
            }
        },
    }
}

/// The next adapter to try after a failed attempt, as [`next_try`] states.
pub fn next_attempt(
    has_preferred: bool,
    retries: usize,
    enable_fallback: bool,
    fallback_count: usize,
    prev: Option<(AdapterStrategy, usize)>,
) -> (r: Option<(AdapterStrategy, usize)>)
    ensures
        r == next_try(has_preferred, retries, enable_fallback, fallback_count, prev),
{
    match prev {
        None => if retries == 0 {
            None
        } else if has_preferred {
            Some((AdapterStrategy::Preferred, 1))
        } else {
            Some((AdapterStrategy::Primary, 1))
        },
        Some((s, a)) => if a < retries {
            Some((s, a + 1))
        } else {
            match s {
                AdapterStrategy::Preferred => Some((AdapterStrategy::Primary, 1)),
                AdapterStrategy::Primary => if enable_fallback && fallback_count > 0 {
                    Some((AdapterStrategy::Fallback(0), 1))
                } else {
                    None
                },
                AdapterStrategy::Fallback(i) => if enable_fallback && i < fallback_count && i + 1 < fallback_count {
                    Some((AdapterStrategy::Fallback(i + 1), 1))
                } else {
                    None
                },
                AdapterStrategy::BestAvailable => None,
            }
        },
    }
}

/// The message reported when every adapter has failed.
pub fn exhausted_message() -> (m: String)
    ensures
        m@ == "All adapters exhausted. Operation failed across all available LLM providers."@,
{
    String::from_str("All adapters exhausted. Operation failed across all available LLM providers.")
}

/// How a conversation's history is kept.
#[derive(Debug, Clone, Copy)]
pub struct ConversationConfig {
    pub max_history_length: usize,
    pub context_window_tokens: usize,
    pub preserve_system_messages: bool,
}

impl Default for ConversationConfig {
    fn default() -> (c: Self)
        ensures
            c.max_history_length == 50,
            c.context_window_tokens == 4000,
            c.preserve_system_messages,
    {
        ConversationConfig { max_history_length: 50, context_window_tokens: 4000, preserve_system_messages: true }
    }
}

/// The trend of a series of progress scores.
#[derive(Debug, Clone, Copy, PartialEq, Eq, Structural)]
pub enum ProgressPattern {
    Improving,
    Declining,
    Plateau,
    Stable,
    RecentImprovement,
    Insufficient,
}

} // verus!
