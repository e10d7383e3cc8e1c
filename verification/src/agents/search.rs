use vstd::prelude::*;
use crate::agents::{category_of, AgentStatus};
use crate::text::{chars_of, contains_str, contains_text, str_eq};

verus! {

/// What a registry search reads of an agent. `meets_scores` is the verdict on
/// the query's skill proficiencies and score thresholds, which are
/// floating-point figures that the caller judges.
#[derive(Debug, Clone)]
pub struct AgentFacts {
    pub status: AgentStatus,
    pub specialisation: String,
    pub role: String,
    pub tasks_completed: u64,
    pub meets_scores: bool,
}

/// What a registry search asks of agents, apart from the floating-point
/// thresholds, and which window of the matches it returns.
#[derive(Debug, Clone)]
pub struct SearchQuery {
    pub statuses: Option<Vec<AgentStatus>>,
    pub specialisations: Option<Vec<String>>,
    pub roles: Option<Vec<String>>,
    pub min_tasks_completed: Option<u64>,
    pub offset: Option<usize>,
    pub limit: Option<usize>,
}

/// Some wanted status is of the same kind as `s`.
pub open spec fn status_wanted(s: AgentStatus, statuses: Seq<AgentStatus>) -> bool {
    exists|i: int| 0 <= i < statuses.len() && category_of(#[trigger] statuses[i]) == category_of(s)
}

/// The specialisation contains some wanted text.
pub open spec fn specialisation_wanted(specialisation: Seq<char>, wanted: Seq<String>) -> bool {
    exists|i: int| 0 <= i < wanted.len() && contains_text(specialisation, #[trigger] wanted[i]@)
}

/// The role is one of the wanted roles.
pub open spec fn role_wanted(role: Seq<char>, roles: Seq<String>) -> bool {
    exists|i: int| 0 <= i < roles.len() && #[trigger] roles[i]@ == role
}

/// Whether the agent passes every filter the query sets.
pub open spec fn agent_wanted(a: AgentFacts, q: SearchQuery) -> bool {
    &&& (match q.statuses { Some(v) => status_wanted(a.status, v@), None => true })
    &&& a.meets_scores
    &&& (match q.min_tasks_completed { Some(m) => a.tasks_completed >= m, None => true })
    &&& (match q.specialisations { Some(v) => specialisation_wanted(a.specialisation@, v@), None => true })
    &&& (match q.roles { Some(v) => role_wanted(a.role@, v@), None => true })
}

/// The positions, in order, of the first `n` agents that the query wants.
pub open spec fn wanted_positions(agents: Seq<AgentFacts>, q: SearchQuery, n: int) -> Seq<usize>
    decreases n,
{
    if n <= 0 {
        Seq::empty()
    } else if agent_wanted(agents[n - 1], q) {
        wanted_positions(agents, q, n - 1).push((n - 1) as usize)
    } else {
        wanted_positions(agents, q, n - 1)
    }
}

/// The query with its task-count threshold taken away.
pub open spec fn without_task_threshold(q: SearchQuery) -> SearchQuery {
    SearchQuery {
        statuses: q.statuses,
        specialisations: q.specialisations,
        roles: q.roles,
        min_tasks_completed: None,
        offset: q.offset,
        limit: q.limit,
    }
}

/// The task-count threshold is inclusive: with a threshold `m`, the query
/// wants exactly the agents it would want without it that completed at least
/// `m` tasks, so an agent is dropped by it only when it completed fewer.
pub proof fn lemma_task_threshold(a: AgentFacts, q: SearchQuery, m: u64)
    requires
        q.min_tasks_completed == Some(m),
    ensures
        agent_wanted(a, q) <==> (agent_wanted(a, without_task_threshold(q)) && m <= a.tasks_completed),
        agent_wanted(a, without_task_threshold(q)) && a.tasks_completed == m ==> agent_wanted(a, q),
{
}

/// The window of `s` that starts after `offset` items and holds at most `limit` items.
pub open spec fn window<T>(s: Seq<T>, offset: nat, limit: nat) -> Seq<T> {
    let start = if offset < s.len() { offset } else { s.len() };
    let end = if limit < s.len() - start { start + limit } else { s.len() };
    s.subrange(start as int, end as int)
}

fn status_in(s: &AgentStatus, statuses: &Vec<AgentStatus>) -> (b: bool)
    ensures
        b == status_wanted(*s, statuses@),
{
    let c = s.category();
    let mut i: usize = 0;
    while i < statuses.len()
        invariant
            i <= statuses@.len(),
            c == category_of(*s),
            forall|j: int| 0 <= j < i ==> category_of(#[trigger] statuses@[j]) != category_of(*s),
        decreases statuses.len() - i,
    {
        if statuses[i].category() == c {
            return true;
        }
        i = i + 1;
    }
    false
}

fn specialisation_in(specialisation: &str, wanted: &Vec<String>) -> (b: bool)
    ensures
        b == specialisation_wanted(specialisation@, wanted@),
{
    let hay = chars_of(specialisation);
    let mut i: usize = 0;
    while i < wanted.len()
        invariant
            i <= wanted@.len(),
            hay@ == specialisation@,
            forall|j: int| 0 <= j < i ==> !contains_text(specialisation@, #[trigger] wanted@[j]@),
        decreases wanted.len() - i,
    {
        if contains_str(&hay, wanted[i].as_str()) {
            return true;
        }
        i = i + 1;
    }
    false
}

fn role_in(role: &str, roles: &Vec<String>) -> (b: bool)
    ensures
        b == role_wanted(role@, roles@),
{
    let mut i: usize = 0;
    while i < roles.len()
        invariant
            i <= roles@.len(),
            forall|j: int| 0 <= j < i ==> #[trigger] roles@[j]@ != role@,
        decreases roles.len() - i,
    {
        if str_eq(roles[i].as_str(), role) {
            return true;
        }
        i = i + 1;
    }
    false
}

/// Whether the query wants the agent: its status is of a wanted kind, it meets
/// the score thresholds, it completed enough tasks, its specialisation contains
/// a wanted text and its role is a wanted one, each filter applying only when
/// the query sets it.
pub fn matches_query(a: &AgentFacts, q: &SearchQuery) -> (b: bool)
    ensures
        b == agent_wanted(*a, *q),
{
    let status_ok = match &q.statuses {
        Some(v) => status_in(&a.status, v),
        None => true,
    };
    let tasks_ok = match q.min_tasks_completed {
        Some(m) => a.tasks_completed >= m,
        None => true,
    };
    let specialisation_ok = match &q.specialisations {
        Some(v) => specialisation_in(a.specialisation.as_str(), v),
        None => true,
    };
    let role_ok = match &q.roles {
        Some(v) => role_in(a.role.as_str(), v),
        None => true,
    };
    status_ok && a.meets_scores && tasks_ok && specialisation_ok && role_ok
}

/// The positions of the agents the query wants, in their order.
pub fn filter_agents(agents: &Vec<AgentFacts>, q: &SearchQuery) -> (r: Vec<usize>)
    ensures
        r@ == wanted_positions(agents@, *q, agents@.len() as int),
{
    let mut r: Vec<usize> = Vec::new();
    let mut i: usize = 0;
    while i < agents.len()
        invariant
            i <= agents@.len(),
            r@ == wanted_positions(agents@, *q, i as int),
        decreases agents.len() - i,
    {
        if matches_query(&agents[i], q) {
            r.push(i);
        }
        i = i + 1;
    }
    r
}

/// The page of `ordered` a query returns: what follows its offset (none when
/// absent), at most its limit of items (all when absent).
pub fn page_of(ordered: &Vec<usize>, q: &SearchQuery) -> (r: Vec<usize>)
    ensures
        r@ == window(ordered@,
            (match q.offset { Some(o) => o, None => 0usize }) as nat,
            (match q.limit { Some(l) => l, None => usize::MAX }) as nat),
{
    let offset: usize = match q.offset { Some(o) => o, None => 0 };
    let limit: usize = match q.limit { Some(l) => l, None => usize::MAX };
    let start: usize = if offset < ordered.len() { offset } else { ordered.len() };
    let end: usize = if limit < ordered.len() - start { start + limit } else { ordered.len() };
    let mut r: Vec<usize> = Vec::new();
    let mut i: usize = start;
    while i < end
        invariant
            start <= i <= end <= ordered@.len(),
            r@ == ordered@.subrange(start as int, i as int),
        decreases end - i,
    {
        r.push(ordered[i]);
        i = i + 1;
        assert(r@ =~= ordered@.subrange(start as int, i as int));
    }
    r
}

/// Every position a filter returns names an agent the query wants, in
/// increasing order, and every wanted agent's position is returned.
pub proof fn lemma_wanted_positions(agents: Seq<AgentFacts>, q: SearchQuery, n: int)
    requires
        0 <= n <= agents.len(),
        agents.len() <= usize::MAX,
    ensures
        forall|k: int| 0 <= k < wanted_positions(agents, q, n).len() ==> {
            let p = #[trigger] wanted_positions(agents, q, n)[k];
            p < n && agent_wanted(agents[p as int], q)
        },
        forall|k: int, l: int| 0 <= k < l < wanted_positions(agents, q, n).len()
            ==> wanted_positions(agents, q, n)[k] < wanted_positions(agents, q, n)[l],
        forall|p: int| 0 <= p < n && agent_wanted(#[trigger] agents[p], q)
            ==> wanted_positions(agents, q, n).contains(p as usize),
    decreases n,
{
    if n > 0 {
        lemma_wanted_positions(agents, q, n - 1);
        let prev = wanted_positions(agents, q, n - 1);
        let cur = wanted_positions(agents, q, n);
        if agent_wanted(agents[n - 1], q) {
            let last: usize = (n - 1) as usize;
            assert(last as int == n - 1);
            assert(cur == prev.push(last));
            assert forall|k: int| 0 <= k < cur.len() implies {
                let p = #[trigger] cur[k];
                p < n && agent_wanted(agents[p as int], q)
            } by {
                if k < prev.len() {
                    assert(cur[k] == prev[k]);
                }
            }
            assert forall|k: int, l: int| 0 <= k < l < cur.len() implies cur[k] < cur[l] by {
                if l < prev.len() {
                    assert(cur[k] == prev[k] && cur[l] == prev[l]);
                } else {
                    assert(cur[k] == prev[k]);
                    assert(prev[k] < n - 1);
                }
            }
            assert forall|p: int| 0 <= p < n && agent_wanted(#[trigger] agents[p], q)
                implies cur.contains(p as usize) by {
                if p < n - 1 {
                    assert(prev.contains(p as usize));
                    let k = choose|k: int| 0 <= k < prev.len() && prev[k] == p as usize;
                    assert(cur[k] == p as usize);
                } else {
                    assert(cur[prev.len() as int] == p as usize);
                }
            }
        } else {
            assert(cur == prev);
        }
    }
}

/// `order` lists each of `0..n` exactly once.
pub open spec fn lists_each_once(order: Seq<usize>, n: nat) -> bool {
    &&& order.len() == n
    &&& forall|i: int| 0 <= i < order.len() ==> (#[trigger] order[i]) < n
    &&& forall|i: int, j: int| 0 <= i < j < order.len() ==> order[i] != order[j]
}

/// `order` ranks the items by their keys from the largest down, items of equal
/// keys keeping their order.
pub open spec fn ranked_down(keys: Seq<u64>, order: Seq<usize>) -> bool {
    forall|i: int, j: int| 0 <= i < j < order.len() ==> {
        &&& keys[order[i] as int] >= keys[order[j] as int]
        &&& keys[order[i] as int] == keys[order[j] as int] ==> order[i] < order[j]
    }
}

/// The items ranked by an integer key, largest first and, among equal keys, in
/// their given order (a stable sort from the largest key down): the positions
/// of the items in ranked order.
pub fn rank_descending(keys: &Vec<u64>) -> (order: Vec<usize>)
    ensures
        lists_each_once(order@, keys@.len()),
        ranked_down(keys@, order@),
{
    let mut order: Vec<usize> = Vec::new();
    let mut k: usize = 0;
    while k < keys.len()
        invariant
            k <= keys@.len(),
            lists_each_once(order@, k as nat),
            ranked_down(keys@, order@),
        decreases keys.len() - k,
    {
        let key = keys[k];
        let mut p: usize = 0;
        while p < order.len() && keys[order[p]] >= key
            invariant
                p <= order@.len(),
                k < keys@.len(),
                key == keys@[k as int],
                lists_each_once(order@, k as nat),
                forall|q: int| 0 <= q < p ==> keys@[(#[trigger] order@[q]) as int] >= key,
            decreases order.len() - p,
        {
            p = p + 1;
        }
        let ghost before = order@;
        assert(forall|q: int| p <= q < before.len() ==> keys@[(#[trigger] before[q]) as int] < key) by {
            assert forall|q: int| p <= q < before.len() implies keys@[(#[trigger] before[q]) as int] < key by {
                if q > p {
                    assert(keys@[before[p as int] as int] >= keys@[before[q] as int]);
                }
            }
        }
        order.insert(p, k);
        assert(order@ == before.insert(p as int, k));
        assert forall|i: int, j: int| 0 <= i < j < order@.len() implies order@[i] != order@[j] by {
            if i < p && j < p {
                assert(order@[i] == before[i] && order@[j] == before[j]);
            } else if i < p && j > p {
                assert(order@[i] == before[i] && order@[j] == before[j - 1]);
            } else if i > p {
                assert(order@[i] == before[i - 1] && order@[j] == before[j - 1]);
            }
        }
        assert forall|i: int, j: int| 0 <= i < j < order@.len() implies {
            &&& keys@[order@[i] as int] >= keys@[order@[j] as int]
            &&& keys@[order@[i] as int] == keys@[order@[j] as int] ==> order@[i] < order@[j]
        } by {
            if j < p {
                assert(order@[i] == before[i] && order@[j] == before[j]);
            } else if j == p {
                assert(order@[i] == before[i]);
            } else if i < p {
                assert(order@[i] == before[i] && order@[j] == before[j - 1]);
            } else if i == p {
                assert(order@[j] == before[j - 1]);
            } else {
                assert(order@[i] == before[i - 1] && order@[j] == before[j - 1]);
            }
        }
        k = k + 1;
    }
    order
}

} // verus!
