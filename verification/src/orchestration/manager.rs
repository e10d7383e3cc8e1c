use vstd::prelude::*;
use crate::keyed::{distinct_keys, map_of, StringTable};
use crate::orchestration::errors::{OrchestrationError, OrchestrationErrorKind};
use crate::orchestration::flow::ResourceLimits;
use crate::orchestration::resources::{
    AgentRequirement, AgentResource, HasId, LLMRequirement, LLMResource, ResourcePool, ResourceType,
    TaskRequirement, TaskResource, WorkflowRequirement, WorkflowResource,
};
use crate::orchestration::strategies::{
    first_capable, first_fitting, first_least_loaded, lemma_first_capable_unique, lemma_first_fitting_unique,
    next_turn, pick_least_loaded, CapabilityBasedStrategy, LoadBalancedStrategy, PriorityBasedStrategy,
    RoundRobinStrategy,
};
use crate::orchestration::tracker::{allocation_recorded, as_count, deallocation_recorded, AllocationCounts, ResourceUsageTracker, ResourceUtilisation};
use crate::text::{concat_str, debug_strings, decimal_nat, push_decimal_u64, push_str_chars, string_from_chars, strings_debug};

verus! {

/// The resources each step of a flow asks for, by kind, in the flow's order.
#[derive(Debug, Clone)]
pub struct FlowResourceRequirements {
    pub agent_requirements: Vec<AgentRequirement>,
    pub llm_requirements: Vec<LLMRequirement>,
    pub task_requirements: Vec<TaskRequirement>,
    pub workflow_requirements: Vec<WorkflowRequirement>,
}

/// The resources handed to one session.
#[derive(Debug, Clone)]
pub struct AllocatedResources {
    pub session_id: String,
    pub agents: Vec<AgentResource>,
    pub llm_instances: Vec<LLMResource>,
    pub tasks: Vec<TaskResource>,
    pub workflows: Vec<WorkflowResource>,
}

/// The agents the capability policy hands out for `reqs` in turn from the free
/// agents `entries`, the free agents left, and the capabilities of the first
/// requirement that no free agent meets, if any.
pub open spec fn agent_plan(entries: Seq<(Seq<char>, AgentResource)>, reqs: Seq<AgentRequirement>)
    -> (Seq<(Seq<char>, AgentResource)>, Seq<(Seq<char>, AgentResource)>, Option<Seq<String>>)
    decreases reqs.len(),
{
    if reqs.len() == 0 {
        (Seq::empty(), entries, None)
    } else if exists|i: int| first_capable(entries, reqs[0].capabilities@, i) {
        let i = choose|i: int| first_capable(entries, reqs[0].capabilities@, i);
        let rest = agent_plan(entries.remove(i), reqs.drop_first());
        (seq![entries[i]] + rest.0, rest.1, rest.2)
    } else {
        (Seq::empty(), entries, Some(reqs[0].capabilities@))
    }
}

/// The task executors the fitting policy hands out for `reqs` in turn, the free
/// executors left, and whether some requirement found none.
pub open spec fn task_plan(entries: Seq<(Seq<char>, TaskResource)>, reqs: Seq<TaskRequirement>)
    -> (Seq<(Seq<char>, TaskResource)>, Seq<(Seq<char>, TaskResource)>, bool)
    decreases reqs.len(),
{
    if reqs.len() == 0 {
        (Seq::empty(), entries, false)
    } else if exists|i: int| first_fitting(entries, reqs[0].resource_requirements, i) {
        let i = choose|i: int| first_fitting(entries, reqs[0].resource_requirements, i);
        let rest = task_plan(entries.remove(i), reqs.drop_first());
        (seq![entries[i]] + rest.0, rest.1, rest.2)
    } else {
        (Seq::empty(), entries, true)
    }
}

/// The workflow executors handed out in turn for `n` requirements from the
/// counter at `turn`, the free executors left, the counter after, and whether
/// the pool ran out.
pub open spec fn workflow_plan(entries: Seq<(Seq<char>, WorkflowResource)>, turn: usize, n: nat)
    -> (Seq<(Seq<char>, WorkflowResource)>, Seq<(Seq<char>, WorkflowResource)>, usize, bool)
    decreases n,
{
    if n == 0 {
        (Seq::empty(), entries, turn, false)
    } else if entries.len() == 0 {
        (Seq::empty(), entries, turn, true)
    } else {
        let i = (turn as int) % (entries.len() as int);
        let rest = workflow_plan(entries.remove(i), next_turn(turn), (n - 1) as nat);
        (seq![entries[i]] + rest.0, rest.1, rest.2, rest.3)
    }
}

/// A plan that serves every agent requirement hands out one agent per requirement.
proof fn lemma_agent_plan_len(entries: Seq<(Seq<char>, AgentResource)>, reqs: Seq<AgentRequirement>)
    ensures
        agent_plan(entries, reqs).2 is None ==> agent_plan(entries, reqs).0.len() == reqs.len(),
    decreases reqs.len(),
{
    if reqs.len() > 0 && exists|i: int| first_capable(entries, reqs[0].capabilities@, i) {
        let i = choose|i: int| first_capable(entries, reqs[0].capabilities@, i);
        lemma_agent_plan_len(entries.remove(i), reqs.drop_first());
    }
}

/// A plan that serves every task requirement hands out one executor per requirement.
proof fn lemma_task_plan_len(entries: Seq<(Seq<char>, TaskResource)>, reqs: Seq<TaskRequirement>)
    ensures
        !task_plan(entries, reqs).2 ==> task_plan(entries, reqs).0.len() == reqs.len(),
    decreases reqs.len(),
{
    if reqs.len() > 0 && exists|i: int| first_fitting(entries, reqs[0].resource_requirements, i) {
        let i = choose|i: int| first_fitting(entries, reqs[0].resource_requirements, i);
        lemma_task_plan_len(entries.remove(i), reqs.drop_first());
    }
}

/// A round-robin plan that does not run out hands out one executor per requirement.
proof fn lemma_workflow_plan_len(entries: Seq<(Seq<char>, WorkflowResource)>, turn: usize, n: nat)
    ensures
        !workflow_plan(entries, turn, n).3 ==> workflow_plan(entries, turn, n).0.len() == n,
    decreases n,
{
    if n > 0 && entries.len() > 0 {
        let i = (turn as int) % (entries.len() as int);
        lemma_workflow_plan_len(entries.remove(i), next_turn(turn), (n - 1) as nat);
    }
}

/// The values of listed entries.
pub open spec fn values_of<T>(entries: Seq<(Seq<char>, T)>) -> Seq<T> {
    entries.map_values(|e: (Seq<char>, T)| e.1)
}

/// Whether `key` is the key of none of the entries.
pub open spec fn key_absent<T>(entries: Seq<(Seq<char>, T)>, key: Seq<char>) -> bool {
    forall|m: int| 0 <= m < entries.len() ==> #[trigger] entries[m].0 != key
}

/// Whether `key` is the key of one of the entries.
pub open spec fn key_listed<T>(entries: Seq<(Seq<char>, T)>, key: Seq<char>) -> bool {
    exists|m: int| 0 <= m < entries.len() && #[trigger] entries[m].0 == key
}

/// The allocated side after handing out `picked`: their keys added, each holding
/// a clone of the resource handed out, every other entry as it was.
pub open spec fn holds_clones<T: Clone>(before: Map<Seq<char>, T>, after: Map<Seq<char>, T>, picked: Seq<(Seq<char>, T)>) -> bool {
    &&& forall|k: Seq<char>| #[trigger] after.contains_key(k) <==> (before.contains_key(k) || key_listed(picked, k))
    &&& forall|k: Seq<char>| before.contains_key(k) && !key_listed(picked, k) ==> #[trigger] after[k] == before[k]
    &&& forall|j: int| 0 <= j < picked.len() ==> cloned(picked[j].1, #[trigger] after[picked[j].0])
}

/// One more hand-out keeps the allocated side in step with the picks, and the
/// picks out of the free listing.
proof fn lemma_hand_out<T: Clone>(
    free: Seq<(Seq<char>, T)>,
    before: Map<Seq<char>, T>,
    cur: Map<Seq<char>, T>,
    next: Map<Seq<char>, T>,
    picked: Seq<(Seq<char>, T)>,
    i: int,
    c: T,
)
    requires
        distinct_keys(free),
        0 <= i < free.len(),
        holds_clones(before, cur, picked),
        forall|j: int| 0 <= j < picked.len() ==> key_absent(free, #[trigger] picked[j].0),
        cloned(free[i].1, c),
        next == cur.insert(free[i].0, c),
    ensures
        holds_clones(before, next, picked.push(free[i])),
        forall|j: int| 0 <= j < picked.push(free[i]).len() ==> key_absent(free.remove(i), #[trigger] picked.push(free[i])[j].0),
        distinct_keys(free.remove(i)),
{
    let np = picked.push(free[i]);
    let k = free[i].0;
    assert forall|kk: Seq<char>| key_listed(np, kk) <==> (key_listed(picked, kk) || kk == k) by {
        if key_listed(np, kk) {
            let m = choose|m: int| 0 <= m < np.len() && #[trigger] np[m].0 == kk;
            if m < picked.len() {
                assert(picked[m].0 == kk);
            }
        }
        if key_listed(picked, kk) {
            let m = choose|m: int| 0 <= m < picked.len() && #[trigger] picked[m].0 == kk;
            assert(np[m].0 == kk);
        }
        if kk == k {
            assert(np[picked.len() as int].0 == kk);
        }
    }
    assert forall|j: int| 0 <= j < np.len() implies cloned(np[j].1, #[trigger] next[np[j].0]) by {
        if j < picked.len() {
            assert(np[j] == picked[j]);
            assert(key_absent(free, picked[j].0));
            assert(free[i].0 != picked[j].0);
        }
    }
    assert forall|j: int| 0 <= j < np.len() implies key_absent(free.remove(i), #[trigger] np[j].0) by {
        assert forall|m: int| 0 <= m < free.remove(i).len() implies #[trigger] free.remove(i)[m].0 != np[j].0 by {
            let src = if m < i { m } else { m + 1 };
            assert(free.remove(i)[m] == free[src]);
            if j < picked.len() {
                assert(np[j] == picked[j]);
                assert(key_absent(free, picked[j].0));
            } else {
                assert(src != i);
            }
        }
    }
}

/// Every entry is listed under its resource's own identifier.
pub open spec fn self_keyed<T: HasId>(es: Seq<(Seq<char>, T)>) -> bool {
    forall|i: int| 0 <= i < es.len() ==> #[trigger] es[i].0 == es[i].1.id_view()
}

/// `picked` and `rest` share out the keys of `entries`: every key listed in
/// `entries` is listed in exactly one of them, `picked` lists each once, and
/// resources listed under their own identifiers stay so when picked.
pub open spec fn splits<T: HasId>(
    entries: Seq<(Seq<char>, T)>,
    picked: Seq<(Seq<char>, T)>,
    rest: Seq<(Seq<char>, T)>,
) -> bool {
    &&& forall|k: Seq<char>| #[trigger] key_listed(entries, k) <==> (key_listed(picked, k) || key_listed(rest, k))
    &&& distinct_keys(picked)
    &&& forall|j: int| 0 <= j < picked.len() ==> key_absent(rest, #[trigger] picked[j].0)
    &&& self_keyed(entries) ==> self_keyed(picked)
}

/// Picking the entry at `i` first and then sharing out the others shares out all of them.
proof fn lemma_splits_step<T: HasId>(
    entries: Seq<(Seq<char>, T)>,
    i: int,
    picked: Seq<(Seq<char>, T)>,
    rest: Seq<(Seq<char>, T)>,
)
    requires
        distinct_keys(entries),
        0 <= i < entries.len(),
        splits(entries.remove(i), picked, rest),
    ensures
        splits(entries, seq![entries[i]] + picked, rest),
{
    let es2 = entries.remove(i);
    let np = seq![entries[i]] + picked;
    let k0 = entries[i].0;
    assert forall|m: int| 0 <= m < es2.len() implies #[trigger] es2[m].0 != k0 by {
        let src = if m < i { m } else { m + 1 };
        assert(es2[m] == entries[src]);
    }
    assert forall|k: Seq<char>| #[trigger] key_listed(entries, k) <==> (key_listed(np, k) || key_listed(rest, k)) by {
        if key_listed(entries, k) {
            let m = choose|m: int| 0 <= m < entries.len() && #[trigger] entries[m].0 == k;
            if m == i {
                assert(np[0].0 == k);
            } else {
                let m2 = if m < i { m } else { m - 1 };
                assert(es2[m2] == entries[m]);
                assert(key_listed(es2, k));
                if key_listed(picked, k) {
                    let j = choose|j: int| 0 <= j < picked.len() && #[trigger] picked[j].0 == k;
                    assert(np[j + 1] == picked[j]);
                }
            }
        }
        if key_listed(np, k) {
            let j = choose|j: int| 0 <= j < np.len() && #[trigger] np[j].0 == k;
            if j == 0 {
                assert(entries[i].0 == k);
            } else {
                assert(np[j] == picked[j - 1]);
                assert(key_listed(picked, k));
                assert(key_listed(es2, k));
                let m = choose|m: int| 0 <= m < es2.len() && #[trigger] es2[m].0 == k;
                let src = if m < i { m } else { m + 1 };
                assert(es2[m] == entries[src]);
            }
        }
        if key_listed(rest, k) {
            assert(key_listed(es2, k));
            let m = choose|m: int| 0 <= m < es2.len() && #[trigger] es2[m].0 == k;
            let src = if m < i { m } else { m + 1 };
            assert(es2[m] == entries[src]);
        }
    }
    assert forall|a: int, b: int| 0 <= a < np.len() && 0 <= b < np.len() && a != b implies np[a].0 != np[b].0 by {
        if a == 0 {
            assert(np[b] == picked[b - 1]);
            assert(key_listed(picked, picked[b - 1].0));
            assert(key_listed(es2, picked[b - 1].0));
        } else if b == 0 {
            assert(np[a] == picked[a - 1]);
            assert(key_listed(picked, picked[a - 1].0));
            assert(key_listed(es2, picked[a - 1].0));
        } else {
            assert(np[a] == picked[a - 1]);
            assert(np[b] == picked[b - 1]);
        }
    }
    assert forall|j: int| 0 <= j < np.len() implies key_absent(rest, #[trigger] np[j].0) by {
        if j == 0 {
            if !key_absent(rest, k0) {
                let m = choose|m: int| 0 <= m < rest.len() && #[trigger] rest[m].0 == k0;
                assert(key_listed(rest, k0));
                assert(key_listed(es2, k0));
            }
        } else {
            assert(np[j] == picked[j - 1]);
        }
    }
    if self_keyed(entries) {
        assert forall|m: int| 0 <= m < es2.len() implies #[trigger] es2[m].0 == es2[m].1.id_view() by {
            let src = if m < i { m } else { m + 1 };
            assert(es2[m] == entries[src]);
        }
        assert forall|j: int| 0 <= j < np.len() implies #[trigger] np[j].0 == np[j].1.id_view() by {
            if j > 0 {
                assert(np[j] == picked[j - 1]);
            }
        }
    }
}

/// The agents the capability plan hands out and the ones it leaves share out the free agents.
proof fn lemma_agent_plan_splits(entries: Seq<(Seq<char>, AgentResource)>, reqs: Seq<AgentRequirement>)
    requires
        distinct_keys(entries),
    ensures
        splits(entries, agent_plan(entries, reqs).0, agent_plan(entries, reqs).1),
    decreases reqs.len(),
{
    if reqs.len() > 0 && exists|i: int| first_capable(entries, reqs[0].capabilities@, i) {
        let i = choose|i: int| first_capable(entries, reqs[0].capabilities@, i);
        crate::keyed::lemma_map_of_remove(entries, i);
        lemma_agent_plan_splits(entries.remove(i), reqs.drop_first());
        lemma_splits_step(entries, i, agent_plan(entries.remove(i), reqs.drop_first()).0,
            agent_plan(entries.remove(i), reqs.drop_first()).1);
    } else {
        assert(splits(entries, Seq::empty(), entries));
    }
}

/// The executors the fitting plan hands out and the ones it leaves share out the free executors.
proof fn lemma_task_plan_splits(entries: Seq<(Seq<char>, TaskResource)>, reqs: Seq<TaskRequirement>)
    requires
        distinct_keys(entries),
    ensures
        splits(entries, task_plan(entries, reqs).0, task_plan(entries, reqs).1),
    decreases reqs.len(),
{
    if reqs.len() > 0 && exists|i: int| first_fitting(entries, reqs[0].resource_requirements, i) {
        let i = choose|i: int| first_fitting(entries, reqs[0].resource_requirements, i);
        crate::keyed::lemma_map_of_remove(entries, i);
        lemma_task_plan_splits(entries.remove(i), reqs.drop_first());
        lemma_splits_step(entries, i, task_plan(entries.remove(i), reqs.drop_first()).0,
            task_plan(entries.remove(i), reqs.drop_first()).1);
    } else {
        assert(splits(entries, Seq::empty(), entries));
    }
}

/// The executors the round-robin plan hands out and the ones it leaves share out the free executors.
proof fn lemma_workflow_plan_splits(entries: Seq<(Seq<char>, WorkflowResource)>, turn: usize, n: nat)
    requires
        distinct_keys(entries),
    ensures
        splits(entries, workflow_plan(entries, turn, n).0, workflow_plan(entries, turn, n).1),
    decreases n,
{
    if n > 0 && entries.len() > 0 {
        let i = (turn as int) % (entries.len() as int);
        crate::keyed::lemma_map_of_remove(entries, i);
        lemma_workflow_plan_splits(entries.remove(i), next_turn(turn), (n - 1) as nat);
        lemma_splits_step(entries, i, workflow_plan(entries.remove(i), next_turn(turn), (n - 1) as nat).0,
            workflow_plan(entries.remove(i), next_turn(turn), (n - 1) as nat).1);
    } else {
        assert(splits(entries, Seq::empty(), entries));
    }
}

/// Releasing identifiers that are all allocated, none twice, frees exactly them.
proof fn lemma_released_frees<T>(free: Map<Seq<char>, T>, taken: Map<Seq<char>, T>, ids: Seq<Seq<char>>)
    requires
        forall|j: int| 0 <= j < ids.len() ==> taken.contains_key(#[trigger] ids[j]),
        forall|x: int, y: int| 0 <= x < ids.len() && 0 <= y < ids.len() && x != y ==> ids[x] != ids[y],
    ensures
        forall|k: Seq<char>| #[trigger] released(free, taken, ids).0.contains_key(k) <==> (free.contains_key(k) || ids.contains(k)),
    decreases ids.len(),
{
    if ids.len() > 0 {
        let id = ids[0];
        let rest = ids.drop_first();
        assert forall|j: int| 0 <= j < rest.len() implies taken.remove(id).contains_key(#[trigger] rest[j]) by {
            assert(rest[j] == ids[j + 1]);
        }
        assert forall|x: int, y: int| 0 <= x < rest.len() && 0 <= y < rest.len() && x != y implies rest[x] != rest[y] by {
            assert(rest[x] == ids[x + 1]);
            assert(rest[y] == ids[y + 1]);
        }
        assert(taken.contains_key(ids[0]));
        assert(released(free, taken, ids) == released(free.insert(id, taken[id]), taken.remove(id), rest));
        lemma_released_frees(free.insert(id, taken[id]), taken.remove(id), rest);
        assert forall|k: Seq<char>| ids.contains(k) <==> (k == id || rest.contains(k)) by {
            if ids.contains(k) {
                let j = choose|j: int| 0 <= j < ids.len() && ids[j] == k;
                if j > 0 {
                    assert(rest[j - 1] == k);
                }
            }
            if rest.contains(k) {
                let j = choose|j: int| 0 <= j < rest.len() && rest[j] == k;
                assert(ids[j + 1] == k);
            }
            if k == id {
                assert(ids[0] == k);
            }
        }
    } else {
        assert(released(free, taken, ids) == (free, taken));
    }
}

/// One pool's round trip: the free side after handing out `picked` (leaving
/// `rest`) and then releasing the handed-out resources by their identifiers
/// has the free identifiers it had before.
proof fn lemma_pool_round_trip<T: HasId + Clone>(
    entries: Seq<(Seq<char>, T)>,
    picked: Seq<(Seq<char>, T)>,
    rest: Seq<(Seq<char>, T)>,
    before: Map<Seq<char>, T>,
    after: Map<Seq<char>, T>,
    ids: Seq<Seq<char>>,
)
    requires
        distinct_keys(entries),
        self_keyed(entries),
        splits(entries, picked, rest),
        holds_clones(before, after, picked),
        ids == id_list(values_of(picked)),
    ensures
        released(map_of(rest), after, ids).0.dom() == map_of(entries).dom(),
{
    assert forall|j: int| 0 <= j < ids.len() implies #[trigger] ids[j] == picked[j].0 by {
        assert(picked[j].0 == picked[j].1.id_view());
    }
    assert forall|j: int| 0 <= j < ids.len() implies after.contains_key(#[trigger] ids[j]) by {
        assert(ids[j] == picked[j].0);
        assert(key_listed(picked, picked[j].0));
    }
    lemma_released_frees(map_of(rest), after, ids);
    assert forall|k: Seq<char>| ids.contains(k) <==> key_listed(picked, k) by {
        if ids.contains(k) {
            let j = choose|j: int| 0 <= j < ids.len() && ids[j] == k;
            assert(ids[j] == picked[j].0);
        }
        if key_listed(picked, k) {
            let j = choose|j: int| 0 <= j < picked.len() && #[trigger] picked[j].0 == k;
            assert(ids[j] == picked[j].0);
        }
    }
    assert forall|k: Seq<char>| #[trigger] map_of(entries).contains_key(k)
        <==> released(map_of(rest), after, ids).0.contains_key(k) by {
        assert(map_of(entries).contains_key(k) == key_listed(entries, k));
        assert(map_of(rest).contains_key(k) == key_listed(rest, k));
    }
    assert(released(map_of(rest), after, ids).0.dom() =~= map_of(entries).dom());
}

/// The message of a count above its per-session limit.
pub open spec fn limit_message(what: Seq<char>, count: nat, limit: u32) -> Seq<char> {
    what + " requirement exceeds limit: "@ + decimal_nat(count) + " > "@ + decimal_nat(limit as nat)
}

/// The finding on a flow's requirement counts against the per-session limits.
pub open spec fn limits_issue(limits: ResourceLimits, reqs: FlowResourceRequirements) -> Option<Seq<char>> {
    if reqs.agent_requirements@.len() > limits.max_agents_per_session as nat {
        Some(limit_message("Agent"@, reqs.agent_requirements@.len(), limits.max_agents_per_session))
    } else if reqs.llm_requirements@.len() > limits.max_llm_instances_per_session as nat {
        Some(limit_message("LLM"@, reqs.llm_requirements@.len(), limits.max_llm_instances_per_session))
    } else if reqs.task_requirements@.len() > limits.max_tasks_per_session as nat {
        Some(limit_message("Task"@, reqs.task_requirements@.len(), limits.max_tasks_per_session))
    } else {
        None
    }
}

/// The identifiers of a list of resources.
pub open spec fn id_list<T: HasId>(v: Seq<T>) -> Seq<Seq<char>> {
    v.map_values(|r: T| r.id_view())
}

/// The contents of a list of strings.
pub open spec fn string_views(v: Seq<String>) -> Seq<Seq<char>> {
    v.map_values(|s: String| s@)
}

/// The identifiers of a list of resources, in order.
fn ids_of<T: HasId>(items: &Vec<T>) -> (ids: Vec<String>)
    ensures
        string_views(ids@) == id_list(items@),
{
    let mut ids: Vec<String> = Vec::new();
    let mut i: usize = 0;
    while i < items.len()
        invariant
            i <= items@.len(),
            ids@.len() == i,
            forall|j: int| 0 <= j < i ==> #[trigger] ids@[j]@ == items@[j].id_view(),
        decreases items.len() - i,
    {
        ids.push(items[i].get_id());
        i = i + 1;
    }
    assert(string_views(ids@) =~= id_list(items@));
    ids
}

/// The identifiers of the resources one session holds, by kind.
#[derive(Debug, Clone)]
pub struct SessionHoldings {
    pub agent_ids: Vec<String>,
    pub llm_ids: Vec<String>,
    pub task_ids: Vec<String>,
    pub workflow_ids: Vec<String>,
}

impl SessionHoldings {
    /// The holdings name exactly the resources of `a`, kind by kind, in order.
    pub open spec fn names(&self, a: AllocatedResources) -> bool {
        &&& string_views(self.agent_ids@) == id_list(a.agents@)
        &&& string_views(self.llm_ids@) == id_list(a.llm_instances@)
        &&& string_views(self.task_ids@) == id_list(a.tasks@)
        &&& string_views(self.workflow_ids@) == id_list(a.workflows@)
    }

    /// How many resources of each kind the holdings name.
    pub open spec fn counts(&self) -> AllocationCounts {
        AllocationCounts {
            agents: self.agent_ids@.len() as usize,
            llm_instances: self.llm_ids@.len() as usize,
            tasks: self.task_ids@.len() as usize,
            workflows: self.workflow_ids@.len() as usize,
        }
    }
}

/// The free and allocated resources after releasing each identifier of `ids`
/// in turn: an allocated one moves back to the free ones, any other is ignored.
pub open spec fn released<T>(free: Map<Seq<char>, T>, taken: Map<Seq<char>, T>, ids: Seq<Seq<char>>)
    -> (Map<Seq<char>, T>, Map<Seq<char>, T>)
    decreases ids.len(),
{
    if ids.len() == 0 {
        (free, taken)
    } else {
        let id = ids[0];
        if taken.contains_key(id) {
            released(free.insert(id, taken[id]), taken.remove(id), ids.drop_first())
        } else {
            released(free, taken, ids.drop_first())
        }
    }
}

/// The tokens a language-model step is expected to use: its template's bytes
/// divided by four and rounded up (capped at the largest `u32`), fifty per
/// context key (as a `u32`), and its output limit (1000 when unset).
pub open spec fn token_estimate(template_bytes: nat, context_keys: nat, max_tokens: Option<u32>) -> int {
    let t = (template_bytes + 3) / 4;
    let template_tokens = if t > u32::MAX { u32::MAX as int } else { t as int };
    template_tokens + (#[verifier::truncate] ((context_keys * 50) as u32)) as int
        + (match max_tokens { Some(m) => m, None => 1000u32 }) as int
}

/// The tokens a language-model step is expected to use, as [`token_estimate`] states.
pub fn estimate_token_usage(template_bytes: usize, context_keys: usize, max_tokens: Option<u32>) -> (n: u32)
    requires
        context_keys <= usize::MAX / 50,
        token_estimate(template_bytes as nat, context_keys as nat, max_tokens) <= u32::MAX,
    ensures
        n == token_estimate(template_bytes as nat, context_keys as nat, max_tokens),
{
    let t: u128 = ((template_bytes as u128) + 3) / 4;
    let template_tokens: u32 = if t > (u32::MAX as u128) { u32::MAX } else { t as u32 };
    let context_tokens: u32 = #[verifier::truncate] ((context_keys * 50) as u32);
    let output: u32 = match max_tokens { Some(m) => m, None => 1000 };
    template_tokens + context_tokens + output
}

/// The requirement an agent step makes: the step's task type as its one capability.
pub fn agent_requirement_for(task_type: &String) -> (r: AgentRequirement)
    ensures
        r.task_type@ == task_type@,
        r.capabilities@.len() == 1,
        r.capabilities@[0]@ == task_type@,
{
    let mut caps: Vec<String> = Vec::new();
    caps.push(task_type.clone());
    AgentRequirement { task_type: task_type.clone(), capabilities: caps }
}

/// Whether the language-model stage can serve `n` requirements from the free instances `entries`.
pub open spec fn llm_stage_ok(entries: Seq<(Seq<char>, LLMResource)>, n: nat) -> bool {
    n == 0 || entries.len() > 0
}

/// `v` holds `n` clones of one clone of the first least-loaded free instance.
pub open spec fn shares_least_loaded(entries: Seq<(Seq<char>, LLMResource)>, v: Seq<LLMResource>, n: nat) -> bool {
    &&& v.len() == n
    &&& n > 0 ==> exists|i: int, c: LLMResource| first_least_loaded(entries, i) && cloned(entries[i].1, c)
        && forall|j: int| 0 <= j < n ==> cloned(c, #[trigger] v[j])
}

/// The counts of an allocation's resources.
pub open spec fn counts_of(a: AllocatedResources) -> AllocationCounts {
    AllocationCounts {
        agents: a.agents@.len() as usize,
        llm_instances: a.llm_instances@.len() as usize,
        tasks: a.tasks@.len() as usize,
        workflows: a.workflows@.len() as usize,
    }
}

/// The session table after recording `holdings` of `a` under `id`: that key added
/// or replaced, every other key as it was.
pub open spec fn session_recorded(
    before: Map<Seq<char>, SessionHoldings>,
    after: Map<Seq<char>, SessionHoldings>,
    id: Seq<char>,
    a: AllocatedResources,
) -> bool {
    &&& after.dom() == before.dom().insert(id)
    &&& after[id].names(a)
    &&& forall|k: Seq<char>| k != id && #[trigger] before.contains_key(k) ==> after[k] == before[k]
}

/// Releases each identifier of `ids` in turn, as [`released`] states.
fn release_all<T>(pool: &mut ResourcePool<T>, ids: &Vec<String>)
    requires
        old(pool).wf(),
    ensures
        final(pool).wf(),
        final(pool).kind() == old(pool).kind(),
        (final(pool).available(), final(pool).allocated())
            == released(old(pool).available(), old(pool).allocated(), string_views(ids@)),
{
    let ghost views = string_views(ids@);
    let ghost goal = released(pool.available(), pool.allocated(), views);
    let mut k: usize = 0;
    proof { assert(views.skip(0) =~= views); }
    while k < ids.len()
        invariant
            k <= ids@.len(),
            pool.wf(),
            pool.kind() == old(pool).kind(),
            views == string_views(ids@),
            goal == released(old(pool).available(), old(pool).allocated(), views),
            released(pool.available(), pool.allocated(), views.skip(k as int)) == goal,
        decreases ids.len() - k,
    {
        proof {
            assert(views.skip(k as int)[0] == ids@[k as int]@);
            assert(views.skip(k as int).drop_first() =~= views.skip(k + 1));
        }
        let _ = pool.release_resource(ids[k].as_str());
        k = k + 1;
    }
    proof { assert(views.skip(ids@.len() as int) =~= Seq::<Seq<char>>::empty()); }
}

/// Keeps the resource pools, hands resources to sessions by the built-in
/// policies (agents by capability, language models by load, tasks by fit,
/// workflows in turn) and records usage.
pub struct ResourceManager {
    resource_limits: ResourceLimits,
    round_robin: RoundRobinStrategy,
    capability_based: CapabilityBasedStrategy,
    load_balanced: LoadBalancedStrategy,
    priority_based: PriorityBasedStrategy,
    agent_pool: ResourcePool<AgentResource>,
    llm_pool: ResourcePool<LLMResource>,
    task_pool: ResourcePool<TaskResource>,
    workflow_pool: ResourcePool<WorkflowResource>,
    active_allocations: StringTable<SessionHoldings>,
    usage_tracker: ResourceUsageTracker,
}

impl ResourceManager {
    /// The per-session limits.
    pub closed spec fn limits(&self) -> ResourceLimits {
        self.resource_limits
    }

    /// The agent pool.
    pub closed spec fn agents(&self) -> ResourcePool<AgentResource> {
        self.agent_pool
    }

    /// The language-model pool.
    pub closed spec fn llms(&self) -> ResourcePool<LLMResource> {
        self.llm_pool
    }

    /// The task-executor pool.
    pub closed spec fn tasks(&self) -> ResourcePool<TaskResource> {
        self.task_pool
    }

    /// The workflow-executor pool.
    pub closed spec fn workflows(&self) -> ResourcePool<WorkflowResource> {
        self.workflow_pool
    }

    /// The counter of the round-robin policy for workflows.
    pub closed spec fn workflow_turn(&self) -> usize {
        self.round_robin.turn()
    }

    /// The resources held by each session.
    pub closed spec fn sessions(&self) -> Map<Seq<char>, SessionHoldings> {
        self.active_allocations.map()
    }

    /// The usage tracker.
    pub closed spec fn tracker(&self) -> ResourceUsageTracker {
        self.usage_tracker
    }

    /// The pools and the session table keep their invariants.
    pub closed spec fn wf(&self) -> bool {
        &&& self.agent_pool.wf()
        &&& self.llm_pool.wf()
        &&& self.task_pool.wf()
        &&& self.workflow_pool.wf()
        &&& self.active_allocations.wf()
        &&& self.agent_pool.kind() == ResourceType::Agent
        &&& self.llm_pool.kind() == ResourceType::LLM
        &&& self.task_pool.kind() == ResourceType::Task
        &&& self.workflow_pool.kind() == ResourceType::Workflow
    }

    /// A manager with empty pools, no sessions and nothing recorded.
    pub fn new(resource_limits: ResourceLimits) -> (m: Self)
        ensures
            m.wf(),
            m.limits() == resource_limits,
            m.agents().available() == Map::<Seq<char>, AgentResource>::empty(),
            m.agents().allocated() == Map::<Seq<char>, AgentResource>::empty(),
            m.llms().available() == Map::<Seq<char>, LLMResource>::empty(),
            m.tasks().available() == Map::<Seq<char>, TaskResource>::empty(),
            m.workflows().available() == Map::<Seq<char>, WorkflowResource>::empty(),
            m.sessions() == Map::<Seq<char>, SessionHoldings>::empty(),
            m.workflow_turn() == 0,
            m.tracker().usage() == ResourceUtilisation::zero(),
            m.tracker().allocations() == 0,
            m.tracker().deallocations() == 0,
    {
        ResourceManager {
            resource_limits,
            round_robin: RoundRobinStrategy::new(),
            capability_based: CapabilityBasedStrategy::new(),
            load_balanced: LoadBalancedStrategy::new(),
            priority_based: PriorityBasedStrategy::new(),
            agent_pool: ResourcePool::new(ResourceType::Agent),
            llm_pool: ResourcePool::new(ResourceType::LLM),
            task_pool: ResourcePool::new(ResourceType::Task),
            workflow_pool: ResourcePool::new(ResourceType::Workflow),
            active_allocations: StringTable::new(),
            usage_tracker: ResourceUsageTracker::new(),
        }
    }

    fn limit_error(what: &str, count: usize, limit: u32) -> (e: OrchestrationError)
        ensures
            e@ == (OrchestrationErrorKind::ResourceAllocation, limit_message(what@, count as nat, limit)),
    {
        let mut out: Vec<char> = Vec::new();
        push_str_chars(&mut out, what);
        push_str_chars(&mut out, " requirement exceeds limit: ");
        push_decimal_u64(count as u64, &mut out);
        push_str_chars(&mut out, " > ");
        push_decimal_u64(limit as u64, &mut out);
        OrchestrationError::ResourceAllocationError(string_from_chars(out.as_slice()))
    }

    /// Checks a flow's requirement counts against the per-session limits.
    pub fn validate_resource_requirements(&self, requirements: &FlowResourceRequirements) -> (r: Result<(), OrchestrationError>)
        ensures
            match limits_issue(self.limits(), *requirements) {
                Some(m) => r matches Err(e) && e@ == (OrchestrationErrorKind::ResourceAllocation, m),
                None => r is Ok,
            },
    {
        let limits = &self.resource_limits;
        if requirements.agent_requirements.len() > limits.max_agents_per_session as usize {
            return Err(Self::limit_error("Agent", requirements.agent_requirements.len(), limits.max_agents_per_session));
        }
        if requirements.llm_requirements.len() > limits.max_llm_instances_per_session as usize {
            return Err(Self::limit_error("LLM", requirements.llm_requirements.len(), limits.max_llm_instances_per_session));
        }
        if requirements.task_requirements.len() > limits.max_tasks_per_session as usize {
            return Err(Self::limit_error("Task", requirements.task_requirements.len(), limits.max_tasks_per_session));
        }
        Ok(())
    }

    /// Hands out an agent for each requirement in turn, by capability, moving it
    /// to the allocated side; stops at the first requirement no free agent meets.
    fn allocate_agents(&mut self, requirements: &Vec<AgentRequirement>) -> (r: Result<Vec<AgentResource>, OrchestrationError>)
        requires
            old(self).wf(),
        ensures
            final(self).wf(),
            final(self).agents().available_entries() == agent_plan(old(self).agents().available_entries(), requirements@).1,
            holds_clones(old(self).agents().allocated(), final(self).agents().allocated(),
                agent_plan(old(self).agents().available_entries(), requirements@).0),
            final(self).llms() == old(self).llms(),
            final(self).tasks() == old(self).tasks(),
            final(self).workflows() == old(self).workflows(),
            final(self).workflow_turn() == old(self).workflow_turn(),
            final(self).sessions() == old(self).sessions(),
            final(self).tracker() == old(self).tracker(),
            final(self).limits() == old(self).limits(),
            match agent_plan(old(self).agents().available_entries(), requirements@).2 {
                None => r matches Ok(v) && v@ == values_of(agent_plan(old(self).agents().available_entries(), requirements@).0),
                Some(caps) => r matches Err(e) && e@ == (OrchestrationErrorKind::ResourceAllocation,
                    "No agent available with required capabilities: "@ + strings_debug(caps.map_values(|s: String| s@))),
            },
    {
        let ghost e0 = self.agent_pool.available_entries();
        let ghost a0 = self.agent_pool.allocated();
        let ghost plan = agent_plan(e0, requirements@);
        let mut out: Vec<AgentResource> = Vec::new();
        let ghost mut picked: Seq<(Seq<char>, AgentResource)> = Seq::empty();
        let mut k: usize = 0;
        proof {
            assert(requirements@.skip(0) =~= requirements@);
            assert(picked + plan.0 =~= plan.0);
        }
        while k < requirements.len()
            invariant
                k <= requirements@.len(),
                self.wf(),
                self.llm_pool == old(self).llm_pool,
                self.task_pool == old(self).task_pool,
                self.workflow_pool == old(self).workflow_pool,
                self.round_robin == old(self).round_robin,
                self.active_allocations == old(self).active_allocations,
                self.usage_tracker == old(self).usage_tracker,
                self.resource_limits == old(self).resource_limits,
                e0 == old(self).agents().available_entries(),
                a0 == old(self).agents().allocated(),
                plan == agent_plan(e0, requirements@),
                out@ == values_of(picked),
                holds_clones(a0, self.agent_pool.allocated(), picked),
                forall|j: int| 0 <= j < picked.len() ==> key_absent(self.agent_pool.available_entries(), #[trigger] picked[j].0),
                plan.0 == picked + agent_plan(self.agent_pool.available_entries(), requirements@.skip(k as int)).0,
                plan.1 == agent_plan(self.agent_pool.available_entries(), requirements@.skip(k as int)).1,
                plan.2 == agent_plan(self.agent_pool.available_entries(), requirements@.skip(k as int)).2,
            decreases requirements.len() - k,
        {
            let ghost cur = self.agent_pool.available_entries();
            let ghost rest = requirements@.skip(k as int);
            proof {
                assert(rest[0] == requirements@[k as int]);
                assert(rest.drop_first() =~= requirements@.skip(k + 1));
                self.agent_pool.lemma_listings();
            }
            let req = &requirements[k];
            match self.capability_based.pick_agent(req, &self.agent_pool) {
                Some(i) => {
                    proof { lemma_first_capable_unique(cur, req.capabilities@, i as int); }
                    let ghost alloc_before = self.agent_pool.allocated();
                    let agent = self.agent_pool.allocate_at(i);
                    proof {
                        let c = choose|c: AgentResource| cloned(agent, c)
                            && self.agent_pool.allocated() == alloc_before.insert(cur[i as int].0, c);
                        lemma_hand_out(cur, a0, alloc_before, self.agent_pool.allocated(), picked, i as int, c);
                        assert(picked.push(cur[i as int]) + agent_plan(cur.remove(i as int), requirements@.skip(k + 1)).0
                            =~= picked + (seq![cur[i as int]] + agent_plan(cur.remove(i as int), requirements@.skip(k + 1)).0));
                    }
                    let ghost before_out = out@;
                    out.push(agent);
                    proof {
                        assert(values_of(picked.push(cur[i as int])) =~= before_out.push(cur[i as int].1));
                        picked = picked.push(cur[i as int]);
                    }
                    k = k + 1;
                },
                None => {
                    proof {
                        if exists|c: int| first_capable(cur, req.capabilities@, c) {
                            let c = choose|c: int| first_capable(cur, req.capabilities@, c);
                            assert(!crate::orchestration::strategies::has_skills(cur[c].1.skill_names@, req.capabilities@));
                        }
                    }
                    let listed = debug_strings(&req.capabilities);
                    return Err(OrchestrationError::ResourceAllocationError(
                        concat_str("No agent available with required capabilities: ", listed.as_str()),
                    ));
                },
            }
        }
        proof {
            assert(requirements@.skip(requirements@.len() as int) =~= Seq::<AgentRequirement>::empty());
            assert(picked + Seq::<(Seq<char>, AgentResource)>::empty() =~= picked);
        }
        Ok(out)
    }

    /// Hands out a task executor for each requirement in turn, the first that
    /// fits, moving it to the allocated side; stops at the first requirement none fits.
    fn allocate_task_resources(&mut self, requirements: &Vec<TaskRequirement>) -> (r: Result<Vec<TaskResource>, OrchestrationError>)
        requires
            old(self).wf(),
        ensures
            final(self).wf(),
            final(self).tasks().available_entries() == task_plan(old(self).tasks().available_entries(), requirements@).1,
            holds_clones(old(self).tasks().allocated(), final(self).tasks().allocated(),
                task_plan(old(self).tasks().available_entries(), requirements@).0),
            final(self).agents() == old(self).agents(),
            final(self).llms() == old(self).llms(),
            final(self).workflows() == old(self).workflows(),
            final(self).workflow_turn() == old(self).workflow_turn(),
            final(self).sessions() == old(self).sessions(),
            final(self).tracker() == old(self).tracker(),
            final(self).limits() == old(self).limits(),
            !task_plan(old(self).tasks().available_entries(), requirements@).2
                ==> (r matches Ok(v) && v@ == values_of(task_plan(old(self).tasks().available_entries(), requirements@).0)),
            task_plan(old(self).tasks().available_entries(), requirements@).2
                ==> (r matches Err(e) && e@ == (OrchestrationErrorKind::ResourceAllocation,
                    "No suitable task resources available for the given requirements"@)),
    {
        let ghost e0 = self.task_pool.available_entries();
        let ghost a0 = self.task_pool.allocated();
        let ghost plan = task_plan(e0, requirements@);
        let mut out: Vec<TaskResource> = Vec::new();
        let ghost mut picked: Seq<(Seq<char>, TaskResource)> = Seq::empty();
        let mut k: usize = 0;
        proof {
            assert(requirements@.skip(0) =~= requirements@);
            assert(picked + plan.0 =~= plan.0);
        }
        while k < requirements.len()
            invariant
                k <= requirements@.len(),
                self.wf(),
                self.agent_pool == old(self).agent_pool,
                self.llm_pool == old(self).llm_pool,
                self.workflow_pool == old(self).workflow_pool,
                self.round_robin == old(self).round_robin,
                self.active_allocations == old(self).active_allocations,
                self.usage_tracker == old(self).usage_tracker,
                self.resource_limits == old(self).resource_limits,
                e0 == old(self).tasks().available_entries(),
                a0 == old(self).tasks().allocated(),
                plan == task_plan(e0, requirements@),
                out@ == values_of(picked),
                holds_clones(a0, self.task_pool.allocated(), picked),
                forall|j: int| 0 <= j < picked.len() ==> key_absent(self.task_pool.available_entries(), #[trigger] picked[j].0),
                plan.0 == picked + task_plan(self.task_pool.available_entries(), requirements@.skip(k as int)).0,
                plan.1 == task_plan(self.task_pool.available_entries(), requirements@.skip(k as int)).1,
                plan.2 == task_plan(self.task_pool.available_entries(), requirements@.skip(k as int)).2,
            decreases requirements.len() - k,
        {
            let ghost cur = self.task_pool.available_entries();
            let ghost rest = requirements@.skip(k as int);
            proof {
                assert(rest[0] == requirements@[k as int]);
                assert(rest.drop_first() =~= requirements@.skip(k + 1));
                self.task_pool.lemma_listings();
            }
            let req = &requirements[k];
            match self.priority_based.pick_task(req, &self.task_pool) {
                Some(i) => {
                    proof { lemma_first_fitting_unique(cur, req.resource_requirements, i as int); }
                    let ghost alloc_before = self.task_pool.allocated();
                    let task = self.task_pool.allocate_at(i);
                    proof {
                        let c = choose|c: TaskResource| cloned(task, c)
                            && self.task_pool.allocated() == alloc_before.insert(cur[i as int].0, c);
                        lemma_hand_out(cur, a0, alloc_before, self.task_pool.allocated(), picked, i as int, c);
                        assert(picked.push(cur[i as int]) + task_plan(cur.remove(i as int), requirements@.skip(k + 1)).0
                            =~= picked + (seq![cur[i as int]] + task_plan(cur.remove(i as int), requirements@.skip(k + 1)).0));
                    }
                    let ghost before_out = out@;
                    out.push(task);
                    proof {
                        assert(values_of(picked.push(cur[i as int])) =~= before_out.push(cur[i as int].1));
                        picked = picked.push(cur[i as int]);
                    }
                    k = k + 1;
                },
                None => {
                    proof {
                        if exists|c: int| first_fitting(cur, req.resource_requirements, c) {
                            let c = choose|c: int| first_fitting(cur, req.resource_requirements, c);
                            assert(!crate::orchestration::strategies::fits(req.resource_requirements, cur[c].1.resource_requirements));
                        }
                    }
                    return Err(OrchestrationError::ResourceAllocationError(
                        String::from_str("No suitable task resources available for the given requirements"),
                    ));
                },
            }
        }
        proof {
            assert(requirements@.skip(requirements@.len() as int) =~= Seq::<TaskRequirement>::empty());
            assert(picked + Seq::<(Seq<char>, TaskResource)>::empty() =~= picked);
        }
        Ok(out)
    }

    /// Hands out a workflow executor for each requirement in turn, round robin,
    /// moving it to the allocated side; stops when the pool runs out.
    fn allocate_workflow_resources(&mut self, requirements: &Vec<WorkflowRequirement>)
        -> (r: Result<Vec<WorkflowResource>, OrchestrationError>)
        requires
            old(self).wf(),
        ensures
            final(self).wf(),
            final(self).workflows().available_entries()
                == workflow_plan(old(self).workflows().available_entries(), old(self).workflow_turn(), requirements@.len()).1,
            final(self).workflow_turn()
                == workflow_plan(old(self).workflows().available_entries(), old(self).workflow_turn(), requirements@.len()).2,
            holds_clones(old(self).workflows().allocated(), final(self).workflows().allocated(),
                workflow_plan(old(self).workflows().available_entries(), old(self).workflow_turn(), requirements@.len()).0),
            final(self).agents() == old(self).agents(),
            final(self).llms() == old(self).llms(),
            final(self).tasks() == old(self).tasks(),
            final(self).sessions() == old(self).sessions(),
            final(self).tracker() == old(self).tracker(),
            final(self).limits() == old(self).limits(),
            !workflow_plan(old(self).workflows().available_entries(), old(self).workflow_turn(), requirements@.len()).3
                ==> (r matches Ok(v) && v@ == values_of(
                    workflow_plan(old(self).workflows().available_entries(), old(self).workflow_turn(), requirements@.len()).0)),
            workflow_plan(old(self).workflows().available_entries(), old(self).workflow_turn(), requirements@.len()).3
                ==> (r matches Err(e) && e@ == (OrchestrationErrorKind::ResourceAllocation, "No workflow resources available"@)),
    {
        let ghost e0 = self.workflow_pool.available_entries();
        let ghost a0 = self.workflow_pool.allocated();
        let ghost plan = workflow_plan(e0, self.round_robin.turn(), requirements@.len());
        let mut out: Vec<WorkflowResource> = Vec::new();
        let ghost mut picked: Seq<(Seq<char>, WorkflowResource)> = Seq::empty();
        let mut k: usize = 0;
        proof {
            assert(picked + plan.0 =~= plan.0);
        }
        while k < requirements.len()
            invariant
                k <= requirements@.len(),
                self.wf(),
                self.agent_pool == old(self).agent_pool,
                self.llm_pool == old(self).llm_pool,
                self.task_pool == old(self).task_pool,
                self.active_allocations == old(self).active_allocations,
                self.usage_tracker == old(self).usage_tracker,
                self.resource_limits == old(self).resource_limits,
                e0 == old(self).workflows().available_entries(),
                a0 == old(self).workflows().allocated(),
                plan == workflow_plan(e0, old(self).workflow_turn(), requirements@.len()),
                out@ == values_of(picked),
                holds_clones(a0, self.workflow_pool.allocated(), picked),
                forall|j: int| 0 <= j < picked.len() ==> key_absent(self.workflow_pool.available_entries(), #[trigger] picked[j].0),
                plan.0 == picked + workflow_plan(self.workflow_pool.available_entries(), self.round_robin.turn(),
                    (requirements@.len() - k) as nat).0,
                plan.1 == workflow_plan(self.workflow_pool.available_entries(), self.round_robin.turn(),
                    (requirements@.len() - k) as nat).1,
                plan.2 == workflow_plan(self.workflow_pool.available_entries(), self.round_robin.turn(),
                    (requirements@.len() - k) as nat).2,
                plan.3 == workflow_plan(self.workflow_pool.available_entries(), self.round_robin.turn(),
                    (requirements@.len() - k) as nat).3,
            decreases requirements.len() - k,
        {
            let ghost cur = self.workflow_pool.available_entries();
            let ghost turn0 = self.round_robin.turn();
            proof { self.workflow_pool.lemma_listings(); }
            let n = self.workflow_pool.available_count();
            if n == 0 {
                return Err(OrchestrationError::ResourceAllocationError(String::from_str("No workflow resources available")));
            }
            let i = self.round_robin.get_next_index(n);
            let ghost alloc_before = self.workflow_pool.allocated();
            let workflow = self.workflow_pool.allocate_at(i);
            proof {
                let c = choose|c: WorkflowResource| cloned(workflow, c)
                    && self.workflow_pool.allocated() == alloc_before.insert(cur[i as int].0, c);
                lemma_hand_out(cur, a0, alloc_before, self.workflow_pool.allocated(), picked, i as int, c);
                assert(picked.push(cur[i as int]) + workflow_plan(cur.remove(i as int), next_turn(turn0),
                    (requirements@.len() - k - 1) as nat).0
                    =~= picked + (seq![cur[i as int]] + workflow_plan(cur.remove(i as int), next_turn(turn0),
                    (requirements@.len() - k - 1) as nat).0));
            }
            let ghost before_out = out@;
            out.push(workflow);
            proof {
                assert(values_of(picked.push(cur[i as int])) =~= before_out.push(cur[i as int].1));
                picked = picked.push(cur[i as int]);
            }
            k = k + 1;
        }
        proof {
            assert(picked + Seq::<(Seq<char>, WorkflowResource)>::empty() =~= picked);
        }
        Ok(out)
    }

    /// Hands the first least-loaded free language-model instance to every
    /// requirement, sharing it: the instance stays free.
    fn allocate_llm_instances(&self, requirements: &Vec<LLMRequirement>) -> (r: Result<Vec<LLMResource>, OrchestrationError>)
        requires
            self.wf(),
        ensures
            llm_stage_ok(self.llms().available_entries(), requirements@.len())
                ==> (r matches Ok(v) && shares_least_loaded(self.llms().available_entries(), v@, requirements@.len())),
            !llm_stage_ok(self.llms().available_entries(), requirements@.len())
                ==> (r matches Err(e) && e@ == (OrchestrationErrorKind::ResourceAllocation, "No LLM instances available"@)),
    {
        if requirements.len() == 0 {
            return Ok(Vec::new());
        }
        let llm = match self.load_balanced.allocate_llm(&requirements[0], &self.llm_pool) {
            Ok(l) => l,
            Err(e) => {
                return Err(e);
            },
        };
        let ghost entries = self.llms().available_entries();
        let mut out: Vec<LLMResource> = Vec::new();
        let mut k: usize = 0;
        while k < requirements.len()
            invariant
                k <= requirements@.len(),
                out@.len() == k,
                forall|j: int| 0 <= j < k ==> cloned(llm, #[trigger] out@[j]),
            decreases requirements.len() - k,
        {
            out.push(llm.clone());
            k = k + 1;
        }
        proof {
            let i = choose|i: int| first_least_loaded(entries, i) && cloned(entries[i].1, llm);
            assert(first_least_loaded(entries, i) && cloned(entries[i].1, llm)
                && forall|j: int| 0 <= j < requirements@.len() ==> cloned(llm, #[trigger] out@[j]));
        }
        Ok(out)
    }

    /// The agent stage of a flow: the capability policy's plan on the free agents.
    pub open spec fn agent_stage(&self, reqs: FlowResourceRequirements)
        -> (Seq<(Seq<char>, AgentResource)>, Seq<(Seq<char>, AgentResource)>, Option<Seq<String>>)
    {
        agent_plan(self.agents().available_entries(), reqs.agent_requirements@)
    }

    /// The task stage of a flow: the fitting policy's plan on the free executors.
    pub open spec fn task_stage(&self, reqs: FlowResourceRequirements)
        -> (Seq<(Seq<char>, TaskResource)>, Seq<(Seq<char>, TaskResource)>, bool)
    {
        task_plan(self.tasks().available_entries(), reqs.task_requirements@)
    }

    /// The workflow stage of a flow: the round-robin plan on the free executors.
    pub open spec fn workflow_stage(&self, reqs: FlowResourceRequirements)
        -> (Seq<(Seq<char>, WorkflowResource)>, Seq<(Seq<char>, WorkflowResource)>, usize, bool)
    {
        workflow_plan(self.workflows().available_entries(), self.workflow_turn(), reqs.workflow_requirements@.len())
    }

    /// The flow's counts are within the per-session limits.
    pub open spec fn reaches_agents(&self, reqs: FlowResourceRequirements) -> bool {
        limits_issue(self.limits(), reqs) is None
    }

    /// ... and every agent requirement finds an agent.
    pub open spec fn reaches_llms(&self, reqs: FlowResourceRequirements) -> bool {
        self.reaches_agents(reqs) && self.agent_stage(reqs).2 is None
    }

    /// ... and a language-model instance is free if one is asked for.
    pub open spec fn reaches_tasks(&self, reqs: FlowResourceRequirements) -> bool {
        self.reaches_llms(reqs) && llm_stage_ok(self.llms().available_entries(), reqs.llm_requirements@.len())
    }

    /// ... and every task requirement finds an executor that fits.
    pub open spec fn reaches_workflows(&self, reqs: FlowResourceRequirements) -> bool {
        self.reaches_tasks(reqs) && !self.task_stage(reqs).2
    }

    /// ... and the workflow pool does not run out: the flow is served.
    pub open spec fn serves(&self, reqs: FlowResourceRequirements) -> bool {
        self.reaches_workflows(reqs) && !self.workflow_stage(reqs).3
    }

    /// Allocates what a flow asks for to the session `session_id`: checks the
    /// counts against the limits, then hands out agents, language-model
    /// instances, task executors and workflow executors in that order, stopping
    /// at the first stage that fails (what earlier stages took stays taken); on
    /// success records the session's holdings and the allocation.
    pub fn allocate_for_flow(&mut self, session_id: String, requirements: &FlowResourceRequirements)
        -> (r: Result<AllocatedResources, OrchestrationError>)
        requires
            old(self).wf(),
            old(self).tracker().allocations() < u64::MAX,
            old(self).tracker().usage().active_agents + as_count(requirements.agent_requirements.len()) <= u32::MAX,
            old(self).tracker().usage().active_llm_instances + as_count(requirements.llm_requirements.len()) <= u32::MAX,
            old(self).tracker().usage().active_tasks + as_count(requirements.task_requirements.len()) <= u32::MAX,
            old(self).tracker().usage().active_workflows + as_count(requirements.workflow_requirements.len())
                <= u32::MAX,
        ensures
            final(self).wf(),
            final(self).limits() == old(self).limits(),
            final(self).llms() == old(self).llms(),
            !old(self).reaches_agents(*requirements) ==> final(self).agents() == old(self).agents(),
            old(self).reaches_agents(*requirements) ==> {
                &&& final(self).agents().available_entries() == old(self).agent_stage(*requirements).1
                &&& holds_clones(old(self).agents().allocated(), final(self).agents().allocated(),
                    old(self).agent_stage(*requirements).0)
            },
            !old(self).reaches_tasks(*requirements) ==> final(self).tasks() == old(self).tasks(),
            old(self).reaches_tasks(*requirements) ==> {
                &&& final(self).tasks().available_entries() == old(self).task_stage(*requirements).1
                &&& holds_clones(old(self).tasks().allocated(), final(self).tasks().allocated(),
                    old(self).task_stage(*requirements).0)
            },
            !old(self).reaches_workflows(*requirements) ==> {
                &&& final(self).workflows() == old(self).workflows()
                &&& final(self).workflow_turn() == old(self).workflow_turn()
            },
            old(self).reaches_workflows(*requirements) ==> {
                &&& final(self).workflows().available_entries() == old(self).workflow_stage(*requirements).1
                &&& final(self).workflow_turn() == old(self).workflow_stage(*requirements).2
                &&& holds_clones(old(self).workflows().allocated(), final(self).workflows().allocated(),
                    old(self).workflow_stage(*requirements).0)
            },
            !old(self).serves(*requirements) ==> {
                &&& final(self).sessions() == old(self).sessions()
                &&& final(self).tracker() == old(self).tracker()
            },
            limits_issue(old(self).limits(), *requirements) matches Some(m)
                ==> (r matches Err(e) && e@ == (OrchestrationErrorKind::ResourceAllocation, m)),
            old(self).reaches_agents(*requirements) ==> match old(self).agent_stage(*requirements).2 {
                Some(caps) => (r matches Err(e) && e@ == (OrchestrationErrorKind::ResourceAllocation,
                    "No agent available with required capabilities: "@ + strings_debug(caps.map_values(|s: String| s@)))),
                None => true,
            },
            old(self).reaches_llms(*requirements) && !old(self).reaches_tasks(*requirements)
                ==> (r matches Err(e) && e@ == (OrchestrationErrorKind::ResourceAllocation, "No LLM instances available"@)),
            old(self).reaches_tasks(*requirements) && old(self).task_stage(*requirements).2
                ==> (r matches Err(e) && e@ == (OrchestrationErrorKind::ResourceAllocation,
                    "No suitable task resources available for the given requirements"@)),
            old(self).reaches_workflows(*requirements) && old(self).workflow_stage(*requirements).3
                ==> (r matches Err(e) && e@ == (OrchestrationErrorKind::ResourceAllocation, "No workflow resources available"@)),
            old(self).serves(*requirements) ==> (r matches Ok(a) && {
                &&& a.session_id@ == session_id@
                &&& a.agents@ == values_of(old(self).agent_stage(*requirements).0)
                &&& shares_least_loaded(old(self).llms().available_entries(), a.llm_instances@,
                    requirements.llm_requirements@.len())
                &&& a.tasks@ == values_of(old(self).task_stage(*requirements).0)
                &&& a.workflows@ == values_of(old(self).workflow_stage(*requirements).0)
                &&& session_recorded(old(self).sessions(), final(self).sessions(), session_id@, a)
                &&& allocation_recorded(old(self).tracker(), final(self).tracker(), counts_of(a))
            }),
    {
        match self.validate_resource_requirements(requirements) {
            Ok(()) => {},
            Err(e) => {
                return Err(e);
            },
        }
        let agents = match self.allocate_agents(&requirements.agent_requirements) {
            Ok(v) => v,
            Err(e) => {
                return Err(e);
            },
        };
        let llm_instances = match self.allocate_llm_instances(&requirements.llm_requirements) {
            Ok(v) => v,
            Err(e) => {
                return Err(e);
            },
        };
        let tasks = match self.allocate_task_resources(&requirements.task_requirements) {
            Ok(v) => v,
            Err(e) => {
                return Err(e);
            },
        };
        let workflows = match self.allocate_workflow_resources(&requirements.workflow_requirements) {
            Ok(v) => v,
            Err(e) => {
                return Err(e);
            },
        };
        proof {
            lemma_agent_plan_len(old(self).agents().available_entries(), requirements.agent_requirements@);
            lemma_task_plan_len(old(self).tasks().available_entries(), requirements.task_requirements@);
            lemma_workflow_plan_len(old(self).workflows().available_entries(), old(self).workflow_turn(),
                requirements.workflow_requirements@.len());
        }
        let holdings = SessionHoldings {
            agent_ids: ids_of(&agents),
            llm_ids: ids_of(&llm_instances),
            task_ids: ids_of(&tasks),
            workflow_ids: ids_of(&workflows),
        };
        let counts = AllocationCounts {
            agents: agents.len(),
            llm_instances: llm_instances.len(),
            tasks: tasks.len(),
            workflows: workflows.len(),
        };
        self.active_allocations.insert(session_id.clone(), holdings);
        self.usage_tracker.record_allocation(&counts);
        let allocated = AllocatedResources { session_id, agents, llm_instances, tasks, workflows };
        proof {
            assert(self.sessions().dom() =~= old(self).sessions().dom().insert(allocated.session_id@));
        }
        Ok(allocated)
    }

    /// Gives back everything the session `session_id` holds: each identifier it
    /// holds is released in its pool, kind by kind, and the deallocation recorded.
    pub fn release_resources(&mut self, session_id: &str) -> (r: Result<(), OrchestrationError>)
        requires
            old(self).wf(),
            old(self).tracker().deallocations() < u64::MAX,
        ensures
            final(self).wf(),
            final(self).limits() == old(self).limits(),
            final(self).workflow_turn() == old(self).workflow_turn(),
            !old(self).sessions().contains_key(session_id@) ==> {
                &&& r matches Err(e) && e@ == (OrchestrationErrorKind::ResourceAllocation,
                    "No resources allocated for session: "@ + session_id@)
                &&& final(self).agents() == old(self).agents()
                &&& final(self).llms() == old(self).llms()
                &&& final(self).tasks() == old(self).tasks()
                &&& final(self).workflows() == old(self).workflows()
                &&& final(self).sessions() == old(self).sessions()
                &&& final(self).tracker() == old(self).tracker()
            },
            old(self).sessions().contains_key(session_id@) ==> {
                let h = old(self).sessions()[session_id@];
                &&& r is Ok
                &&& final(self).sessions() == old(self).sessions().remove(session_id@)
                &&& (final(self).agents().available(), final(self).agents().allocated())
                    == released(old(self).agents().available(), old(self).agents().allocated(), string_views(h.agent_ids@))
                &&& (final(self).llms().available(), final(self).llms().allocated())
                    == released(old(self).llms().available(), old(self).llms().allocated(), string_views(h.llm_ids@))
                &&& (final(self).tasks().available(), final(self).tasks().allocated())
                    == released(old(self).tasks().available(), old(self).tasks().allocated(), string_views(h.task_ids@))
                &&& (final(self).workflows().available(), final(self).workflows().allocated())
                    == released(old(self).workflows().available(), old(self).workflows().allocated(),
                        string_views(h.workflow_ids@))
                &&& deallocation_recorded(old(self).tracker(), final(self).tracker(), h.counts())
            },
    {
        let holdings = match self.active_allocations.remove(session_id) {
            Some(h) => h,
            None => {
                return Err(OrchestrationError::ResourceAllocationError(
                    concat_str("No resources allocated for session: ", session_id),
                ));
            },
        };
        release_all(&mut self.agent_pool, &holdings.agent_ids);
        release_all(&mut self.llm_pool, &holdings.llm_ids);
        release_all(&mut self.task_pool, &holdings.task_ids);
        release_all(&mut self.workflow_pool, &holdings.workflow_ids);
        let counts = AllocationCounts {
            agents: holdings.agent_ids.len(),
            llm_instances: holdings.llm_ids.len(),
            tasks: holdings.task_ids.len(),
            workflows: holdings.workflow_ids.len(),
        };
        self.usage_tracker.record_deallocation(&counts);
        Ok(())
    }

    /// The usage in force.
    pub fn get_resource_utilisation(&self) -> (u: ResourceUtilisation)
        ensures
            u == self.tracker().usage(),
    {
        self.usage_tracker.get_utilisation()
    }

    /// Makes an agent available under its own identifier.
    pub fn add_agent_resource(&mut self, agent: AgentResource) -> (r: Result<(), OrchestrationError>)
        requires
            old(self).wf(),
        ensures
            r is Ok,
            final(self).wf(),
            final(self).agents().available() == old(self).agents().available().insert(agent.id@, agent),
            final(self).agents().allocated() == old(self).agents().allocated(),
            final(self).llms() == old(self).llms(),
            final(self).tasks() == old(self).tasks(),
            final(self).workflows() == old(self).workflows(),
            final(self).workflow_turn() == old(self).workflow_turn(),
            final(self).sessions() == old(self).sessions(),
            final(self).tracker() == old(self).tracker(),
            final(self).limits() == old(self).limits(),
    {
        self.agent_pool.add_resource(agent)
    }

    /// Makes a language-model instance available under its own identifier.
    pub fn add_llm_resource(&mut self, llm: LLMResource) -> (r: Result<(), OrchestrationError>)
        requires
            old(self).wf(),
        ensures
            r is Ok,
            final(self).wf(),
            final(self).llms().available() == old(self).llms().available().insert(llm.id@, llm),
            final(self).llms().allocated() == old(self).llms().allocated(),
            final(self).agents() == old(self).agents(),
            final(self).tasks() == old(self).tasks(),
            final(self).workflows() == old(self).workflows(),
            final(self).workflow_turn() == old(self).workflow_turn(),
            final(self).sessions() == old(self).sessions(),
            final(self).tracker() == old(self).tracker(),
            final(self).limits() == old(self).limits(),
    {
        self.llm_pool.add_resource(llm)
    }

    /// Makes a task executor available under its own identifier.
    pub fn add_task_resource(&mut self, task: TaskResource) -> (r: Result<(), OrchestrationError>)
        requires
            old(self).wf(),
        ensures
            r is Ok,
            final(self).wf(),
            final(self).tasks().available() == old(self).tasks().available().insert(task.id@, task),
            final(self).tasks().allocated() == old(self).tasks().allocated(),
            final(self).agents() == old(self).agents(),
            final(self).llms() == old(self).llms(),
            final(self).workflows() == old(self).workflows(),
            final(self).workflow_turn() == old(self).workflow_turn(),
            final(self).sessions() == old(self).sessions(),
            final(self).tracker() == old(self).tracker(),
            final(self).limits() == old(self).limits(),
    {
        self.task_pool.add_resource(task)
    }

    /// Makes a workflow executor available under its own identifier.
    pub fn add_workflow_resource(&mut self, workflow: WorkflowResource) -> (r: Result<(), OrchestrationError>)
        requires
            old(self).wf(),
        ensures
            r is Ok,
            final(self).wf(),
            final(self).workflows().available() == old(self).workflows().available().insert(workflow.id@, workflow),
            final(self).workflows().allocated() == old(self).workflows().allocated(),
            final(self).agents() == old(self).agents(),
            final(self).llms() == old(self).llms(),
            final(self).tasks() == old(self).tasks(),
            final(self).workflow_turn() == old(self).workflow_turn(),
            final(self).sessions() == old(self).sessions(),
            final(self).tracker() == old(self).tracker(),
            final(self).limits() == old(self).limits(),
    {
        self.workflow_pool.add_resource(workflow)
    }

    /// The free and allocated counts of the agent, language-model, task and
    /// workflow pools, in that order.
    pub fn debug_pool_state(&self) -> (r: (usize, usize, usize, usize, usize, usize, usize, usize))
        requires
            self.wf(),
        ensures
            r.0 == self.agents().available().dom().len(),
            r.1 == self.agents().allocated().dom().len(),
            r.2 == self.llms().available().dom().len(),
            r.3 == self.llms().allocated().dom().len(),
            r.4 == self.tasks().available().dom().len(),
            r.5 == self.tasks().allocated().dom().len(),
            r.6 == self.workflows().available().dom().len(),
            r.7 == self.workflows().allocated().dom().len(),
    {
        (
            self.agent_pool.available_count(),
            self.agent_pool.allocated_count(),
            self.llm_pool.available_count(),
            self.llm_pool.allocated_count(),
            self.task_pool.available_count(),
            self.task_pool.allocated_count(),
            self.workflow_pool.available_count(),
            self.workflow_pool.allocated_count(),
        )
    }
}

/// Releasing a session right after its flow was served gives every agent, task
/// executor and workflow executor the allocation took back to the free side:
/// each pool has the free identifiers it had before the allocation. This holds
/// for pools that list each free resource under its own identifier, as
/// resources added through the manager are.
///
/// `before`, `served` and `after` are the manager before `allocate_for_flow`,
/// after it returned `allocation` for `requirements`, and after
/// `release_resources` for the same session; the requirements state what those
/// calls ensure.
pub proof fn lemma_release_frees_what_was_allocated(
    before: ResourceManager,
    served: ResourceManager,
    after: ResourceManager,
    session_id: Seq<char>,
    requirements: FlowResourceRequirements,
    allocation: AllocatedResources,
)
    requires
        before.wf(),
        self_keyed(before.agents().available_entries()),
        self_keyed(before.tasks().available_entries()),
        self_keyed(before.workflows().available_entries()),
        before.serves(requirements),
        served.wf(),
        served.agents().available_entries() == before.agent_stage(requirements).1,
        holds_clones(before.agents().allocated(), served.agents().allocated(), before.agent_stage(requirements).0),
        served.tasks().available_entries() == before.task_stage(requirements).1,
        holds_clones(before.tasks().allocated(), served.tasks().allocated(), before.task_stage(requirements).0),
        served.workflows().available_entries() == before.workflow_stage(requirements).1,
        holds_clones(before.workflows().allocated(), served.workflows().allocated(), before.workflow_stage(requirements).0),
        allocation.agents@ == values_of(before.agent_stage(requirements).0),
        allocation.tasks@ == values_of(before.task_stage(requirements).0),
        allocation.workflows@ == values_of(before.workflow_stage(requirements).0),
        session_recorded(before.sessions(), served.sessions(), session_id, allocation),
        (after.agents().available(), after.agents().allocated()) == released(served.agents().available(),
            served.agents().allocated(), string_views(served.sessions()[session_id].agent_ids@)),
        (after.tasks().available(), after.tasks().allocated()) == released(served.tasks().available(),
            served.tasks().allocated(), string_views(served.sessions()[session_id].task_ids@)),
        (after.workflows().available(), after.workflows().allocated()) == released(served.workflows().available(),
            served.workflows().allocated(), string_views(served.sessions()[session_id].workflow_ids@)),
    ensures
        after.agents().available().dom() == before.agents().available().dom(),
        after.tasks().available().dom() == before.tasks().available().dom(),
        after.workflows().available().dom() == before.workflows().available().dom(),
{
    before.agents().lemma_listings();
    before.tasks().lemma_listings();
    before.workflows().lemma_listings();
    served.agents().lemma_listings();
    served.tasks().lemma_listings();
    served.workflows().lemma_listings();
    let ae = before.agents().available_entries();
    let te = before.tasks().available_entries();
    let we = before.workflows().available_entries();
    lemma_agent_plan_splits(ae, requirements.agent_requirements@);
    lemma_task_plan_splits(te, requirements.task_requirements@);
    lemma_workflow_plan_splits(we, before.workflow_turn(), requirements.workflow_requirements@.len());
    lemma_pool_round_trip(ae, before.agent_stage(requirements).0, before.agent_stage(requirements).1,
        before.agents().allocated(), served.agents().allocated(),
        string_views(served.sessions()[session_id].agent_ids@));
    lemma_pool_round_trip(te, before.task_stage(requirements).0, before.task_stage(requirements).1,
        before.tasks().allocated(), served.tasks().allocated(),
        string_views(served.sessions()[session_id].task_ids@));
    lemma_pool_round_trip(we, before.workflow_stage(requirements).0, before.workflow_stage(requirements).1,
        before.workflows().allocated(), served.workflows().allocated(),
        string_views(served.sessions()[session_id].workflow_ids@));
}

} // verus!
