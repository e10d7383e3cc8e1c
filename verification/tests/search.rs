use sleet::agents::search::{filter_agents, matches_query, page_of, rank_descending, AgentFacts, SearchQuery};
use sleet::agents::AgentStatus;

fn facts(status: AgentStatus, specialisation: &str, role: &str, tasks: u64, meets: bool) -> AgentFacts {
    AgentFacts {
        status,
        specialisation: specialisation.to_string(),
        role: role.to_string(),
        tasks_completed: tasks,
        meets_scores: meets,
    }
}

fn open_query() -> SearchQuery {
    SearchQuery { statuses: None, specialisations: None, roles: None, min_tasks_completed: None, offset: None, limit: None }
}

fn roster() -> Vec<AgentFacts> {
    vec![
        facts(AgentStatus::Available, "rust systems", "engineer", 10, true),
        facts(AgentStatus::Busy { task_id: "t".to_string(), started_at: 1 }, "data science", "analyst", 3, true),
        facts(AgentStatus::Offline { reason: "night".to_string() }, "rust web", "engineer", 7, true),
        facts(AgentStatus::Available, "rust embedded", "engineer", 1, false),
    ]
}

#[test]
fn an_open_query_keeps_agents_that_meet_the_scores() {
    assert_eq!(filter_agents(&roster(), &open_query()), vec![0, 1, 2]);
}

#[test]
fn statuses_match_by_kind() {
    let mut q = open_query();
    q.statuses = Some(vec![AgentStatus::Busy { task_id: "other".to_string(), started_at: 9 }, AgentStatus::Offline { reason: String::new() }]);
    assert_eq!(filter_agents(&roster(), &q), vec![1, 2]);
}

#[test]
fn specialisations_roles_and_task_counts_filter() {
    let mut q = open_query();
    q.specialisations = Some(vec!["rust".to_string()]);
    assert_eq!(filter_agents(&roster(), &q), vec![0, 2]);
    q.min_tasks_completed = Some(8);
    assert_eq!(filter_agents(&roster(), &q), vec![0]);
    let mut r = open_query();
    r.roles = Some(vec!["analyst".to_string()]);
    assert_eq!(filter_agents(&roster(), &r), vec![1]);
    assert!(!matches_query(&roster()[3], &open_query()));
}

#[test]
fn pages_skip_the_offset_and_stop_at_the_limit() {
    let ordered = vec![4, 2, 9, 7];
    let mut q = open_query();
    assert_eq!(page_of(&ordered, &q), vec![4, 2, 9, 7]);
    q.offset = Some(1);
    q.limit = Some(2);
    assert_eq!(page_of(&ordered, &q), vec![2, 9]);
    q.offset = Some(3);
    assert_eq!(page_of(&ordered, &q), vec![7]);
    q.offset = Some(10);
    assert_eq!(page_of(&ordered, &q), Vec::<usize>::new());
}

#[test]
fn integer_keys_rank_largest_first_keeping_ties_in_order() {
    assert_eq!(rank_descending(&vec![3, 9, 3, 1, 9]), vec![1, 4, 0, 2, 3]);
    assert_eq!(rank_descending(&Vec::new()), Vec::<usize>::new());
}
