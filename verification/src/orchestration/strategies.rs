use vstd::prelude::*;
use crate::orchestration::definitions::ResourceRequirement;
use crate::orchestration::errors::{OrchestrationError, OrchestrationErrorKind};
use crate::orchestration::resources::{
    AgentRequirement, AgentResource, LLMRequirement, LLMResource, ResourcePool, TaskRequirement,
    TaskResource, WorkflowRequirement, WorkflowResource, Workload,
};
use crate::text::{concat_str, debug_strings, str_eq, strings_debug};

verus! {

/// The allocation error reporting `msg`.
pub open spec fn refused<T>(r: Result<T, OrchestrationError>, msg: Seq<char>) -> bool {
    r matches Err(e) && e@ == (OrchestrationErrorKind::ResourceAllocation, msg)
}

/// `r` is a clone of the resource listed at position `i`.
pub open spec fn granted<T: Clone>(r: Result<T, OrchestrationError>, entries: Seq<(Seq<char>, T)>, i: int) -> bool {
    0 <= i < entries.len() && (r matches Ok(v) && cloned(entries[i].1, v))
}

/// The outcome of handing out the first free resource, or refusing with `msg` when there is none.
pub open spec fn first_or_refused<T: Clone>(
    r: Result<T, OrchestrationError>,
    entries: Seq<(Seq<char>, T)>,
    msg: Seq<char>,
) -> bool {
    if entries.len() == 0 { refused(r, msg) } else { granted(r, entries, 0) }
}

/// The counter after one more turn, wrapping around at the largest value.
pub open spec fn next_turn(c: usize) -> usize {
    if c == usize::MAX { 0 } else { (c + 1) as usize }
}

fn clone_listed<T: Clone>(pool: &ResourcePool<T>, i: usize) -> (r: T)
    requires
        pool.wf(),
        i < pool.available_entries().len(),
    ensures
        cloned(pool.available_entries()[i as int].1, r),
{
    let values = pool.get_available_resources();
    let chosen: &T = values[i];
    chosen.clone()
}

fn first_available<T: Clone>(pool: &ResourcePool<T>, msg: &str) -> (r: Result<T, OrchestrationError>)
    requires
        pool.wf(),
    ensures
        first_or_refused(r, pool.available_entries(), msg@),
{
    proof { pool.lemma_listings(); }
    if pool.available_count() == 0 {
        Err(OrchestrationError::ResourceAllocationError(String::from_str(msg)))
    } else {
        Ok(clone_listed(pool, 0))
    }
}

/// Hands out free resources in turn, by a counter that advances on each allocation.
pub struct RoundRobinStrategy {
    current_index: usize,
}

impl RoundRobinStrategy {
    /// The counter of allocations made so far.
    pub closed spec fn turn(&self) -> usize {
        self.current_index
    }

    /// The outcome of one round-robin allocation from `entries` with the counter at `turn`.
    pub open spec fn outcome<T: Clone>(
        turn: usize,
        entries: Seq<(Seq<char>, T)>,
        msg: Seq<char>,
        r: Result<T, OrchestrationError>,
        next: usize,
    ) -> bool {
        if entries.len() == 0 {
            refused(r, msg) && next == turn
        } else {
            granted(r, entries, (turn as int) % (entries.len() as int)) && next == next_turn(turn)
        }
    }

    /// A strategy whose first allocation takes the first free resource.
    pub fn new() -> (s: Self)
        ensures
            s.turn() == 0,
    {
        RoundRobinStrategy { current_index: 0 }
    }

    /// The position to take from a pool of `pool_size` free resources; the counter
    /// advances unless the pool is empty.
    pub fn get_next_index(&mut self, pool_size: usize) -> (i: usize)
        ensures
            pool_size == 0 ==> i == 0 && final(self).turn() == old(self).turn(),
            pool_size > 0 ==> i == old(self).turn() % pool_size && final(self).turn() == next_turn(old(self).turn()),
    {
        if pool_size == 0 {
            return 0;
        }
        let i = self.current_index % pool_size;
        self.current_index = if self.current_index == usize::MAX { 0 } else { self.current_index + 1 };
        i
    }

    fn pick<T: Clone>(&mut self, pool: &ResourcePool<T>, msg: &str) -> (r: Result<T, OrchestrationError>)
        requires
            pool.wf(),
        ensures
            Self::outcome(old(self).turn(), pool.available_entries(), msg@, r, final(self).turn()),
    {
        proof { pool.lemma_listings(); }
        let n = pool.available_count();
        if n == 0 {
            return Err(OrchestrationError::ResourceAllocationError(String::from_str(msg)));
        }
        let i = self.get_next_index(n);
        Ok(clone_listed(pool, i))
    }

    /// The next agent in turn.
    pub fn allocate_agent(&mut self, requirement: &AgentRequirement, pool: &ResourcePool<AgentResource>)
        -> (r: Result<AgentResource, OrchestrationError>)
        requires
            pool.wf(),
        ensures
            Self::outcome(old(self).turn(), pool.available_entries(), "No agents available"@, r, final(self).turn()),
    {
        self.pick(pool, "No agents available")
    }

    /// The next language-model instance in turn.
    pub fn allocate_llm(&mut self, requirement: &LLMRequirement, pool: &ResourcePool<LLMResource>)
        -> (r: Result<LLMResource, OrchestrationError>)
        requires
            pool.wf(),
        ensures
            Self::outcome(old(self).turn(), pool.available_entries(), "No LLM instances available"@, r, final(self).turn()),
    {
        self.pick(pool, "No LLM instances available")
    }

    /// The next task executor in turn.
    pub fn allocate_task(&mut self, requirement: &TaskRequirement, pool: &ResourcePool<TaskResource>)
        -> (r: Result<TaskResource, OrchestrationError>)
        requires
            pool.wf(),
        ensures
            Self::outcome(old(self).turn(), pool.available_entries(), "No task resources available"@, r, final(self).turn()),
    {
        self.pick(pool, "No task resources available")
    }

    /// The next workflow executor in turn.
    pub fn allocate_workflow(&mut self, requirement: &WorkflowRequirement, pool: &ResourcePool<WorkflowResource>)
        -> (r: Result<WorkflowResource, OrchestrationError>)
        requires
            pool.wf(),
        ensures
            Self::outcome(old(self).turn(), pool.available_entries(), "No workflow resources available"@, r, final(self).turn()),
    {
        self.pick(pool, "No workflow resources available")
    }
}

/// Round-robin allocations from an unchanged pool of `n` free resources take the
/// positions in cyclic order: the next turn takes the position after this one,
/// wrapping to the first after the last (until the counter itself wraps).
pub proof fn lemma_round_robin_cycles(turn: usize, n: int)
    requires
        n > 0,
        turn < usize::MAX,
    ensures
        (next_turn(turn) as int) % n == ((turn as int) % n + 1) % n,
{
    vstd::arithmetic::div_mod::lemma_add_mod_noop(turn as int, 1, n);
    vstd::arithmetic::div_mod::lemma_mod_twice(turn as int, n);
    if n == 1 {
        let a = next_turn(turn) as int;
        let b = (turn as int) % n + 1;
        assert(a % 1 == 0) by (nonlinear_arith);
        assert(b % 1 == 0) by (nonlinear_arith);
    } else {
        vstd::arithmetic::div_mod::lemma_small_mod(1, n as nat);
    }
}

/// Whether one of the skill names is `cap`.
pub open spec fn has_skill_named(skills: Seq<String>, cap: Seq<char>) -> bool {
    exists|k: int| 0 <= k < skills.len() && #[trigger] skills[k]@ == cap
}

/// Whether the skill names include every required capability.
pub open spec fn has_skills(skills: Seq<String>, caps: Seq<String>) -> bool {
    forall|j: int| 0 <= j < caps.len() ==> has_skill_named(skills, #[trigger] caps[j]@)
}

/// The first free agent that has every required capability, if any.
pub open spec fn first_capable(entries: Seq<(Seq<char>, AgentResource)>, caps: Seq<String>, i: int) -> bool {
    &&& 0 <= i < entries.len()
    &&& has_skills(entries[i].1.skill_names@, caps)
    &&& forall|j: int| 0 <= j < i ==> !has_skills(#[trigger] entries[j].1.skill_names@, caps)
}

fn has_skill(skills: &Vec<String>, cap: &String) -> (b: bool)
    ensures
        b == has_skill_named(skills@, cap@),
{
    let mut k: usize = 0;
    while k < skills.len()
        invariant
            k <= skills@.len(),
            forall|m: int| 0 <= m < k ==> #[trigger] skills@[m]@ != cap@,
        decreases skills.len() - k,
    {
        if str_eq(skills[k].as_str(), cap.as_str()) {
            return true;
        }
        k = k + 1;
    }
    false
}

fn has_all_skills(skills: &Vec<String>, caps: &Vec<String>) -> (b: bool)
    ensures
        b == has_skills(skills@, caps@),
{
    let mut j: usize = 0;
    while j < caps.len()
        invariant
            j <= caps@.len(),
            forall|m: int| 0 <= m < j ==> has_skill_named(skills@, #[trigger] caps@[m]@),
        decreases caps.len() - j,
    {
        if !has_skill(skills, &caps[j]) {
            return false;
        }
        j = j + 1;
    }
    true
}

/// Hands out agents by their skills, and other resources first come, first served.
pub struct CapabilityBasedStrategy;

impl CapabilityBasedStrategy {
    /// The strategy.
    pub fn new() -> Self {
        CapabilityBasedStrategy
    }

    /// The position of the first free agent that has every capability the requirement names.
    pub fn pick_agent(&self, requirement: &AgentRequirement, pool: &ResourcePool<AgentResource>) -> (r: Option<usize>)
        requires
            pool.wf(),
        ensures
            r matches Some(i) ==> first_capable(pool.available_entries(), requirement.capabilities@, i as int),
            r is None ==> forall|i: int| 0 <= i < pool.available_entries().len()
                ==> !has_skills(#[trigger] pool.available_entries()[i].1.skill_names@, requirement.capabilities@),
    {
        proof { pool.lemma_listings(); }
        let values = pool.get_available_resources();
        let mut i: usize = 0;
        while i < values.len()
            invariant
                i <= values@.len(),
                values@.len() == pool.available_entries().len(),
                forall|m: int| 0 <= m < values@.len() ==> *values@[m] == #[trigger] pool.available_entries()[m].1,
                forall|m: int| 0 <= m < i ==> !has_skills(#[trigger] pool.available_entries()[m].1.skill_names@, requirement.capabilities@),
            decreases values.len() - i,
        {
            let agent: &AgentResource = values[i];
            if has_all_skills(&agent.skill_names, &requirement.capabilities) {
                return Some(i);
            }
            i = i + 1;
        }
        None
    }

    /// The first free agent that has every capability the requirement names.
    pub fn allocate_agent(&self, requirement: &AgentRequirement, pool: &ResourcePool<AgentResource>)
        -> (r: Result<AgentResource, OrchestrationError>)
        requires
            pool.wf(),
        ensures
            (exists|i: int| first_capable(pool.available_entries(), requirement.capabilities@, i))
                ==> granted(r, pool.available_entries(),
                    choose|i: int| first_capable(pool.available_entries(), requirement.capabilities@, i)),
            (forall|i: int| 0 <= i < pool.available_entries().len()
                ==> !has_skills(#[trigger] pool.available_entries()[i].1.skill_names@, requirement.capabilities@))
                ==> refused(r, "No agent available with required capabilities: "@
                    + strings_debug(requirement.capabilities@.map_values(|s: String| s@))),
    {
        match self.pick_agent(requirement, pool) {
            Some(i) => {
                proof { lemma_first_capable_unique(pool.available_entries(), requirement.capabilities@, i as int); }
                Ok(clone_listed(pool, i))
            },
            None => {
                let listed = debug_strings(&requirement.capabilities);
                Err(OrchestrationError::ResourceAllocationError(
                    concat_str("No agent available with required capabilities: ", listed.as_str()),
                ))
            },
        }
    }

    /// The first free language-model instance.
    pub fn allocate_llm(&self, requirement: &LLMRequirement, pool: &ResourcePool<LLMResource>)
        -> (r: Result<LLMResource, OrchestrationError>)
        requires
            pool.wf(),
        ensures
            first_or_refused(r, pool.available_entries(), "No LLM instances available"@),
    {
        first_available(pool, "No LLM instances available")
    }

    /// The first free task executor.
    pub fn allocate_task(&self, requirement: &TaskRequirement, pool: &ResourcePool<TaskResource>)
        -> (r: Result<TaskResource, OrchestrationError>)
        requires
            pool.wf(),
        ensures
            first_or_refused(r, pool.available_entries(), "No task resources available"@),
    {
        first_available(pool, "No task resources available")
    }

    /// The first free workflow executor.
    pub fn allocate_workflow(&self, requirement: &WorkflowRequirement, pool: &ResourcePool<WorkflowResource>)
        -> (r: Result<WorkflowResource, OrchestrationError>)
        requires
            pool.wf(),
        ensures
            first_or_refused(r, pool.available_entries(), "No workflow resources available"@),
    {
        first_available(pool, "No workflow resources available")
    }
}

/// The first capable agent is the one `choose` names.
pub proof fn lemma_first_capable_unique(entries: Seq<(Seq<char>, AgentResource)>, caps: Seq<String>, i: int)
    requires
        first_capable(entries, caps, i),
    ensures
        (choose|c: int| first_capable(entries, caps, c)) == i,
{
    let c = choose|c: int| first_capable(entries, caps, c);
    if c < i {
        assert(!has_skills(entries[c].1.skill_names@, caps));
    } else if c > i {
        assert(!has_skills(entries[i].1.skill_names@, caps));
    }
}

/// Position `i` holds the first of the least-loaded free resources.
pub open spec fn first_least_loaded<T: Workload>(entries: Seq<(Seq<char>, T)>, i: int) -> bool {
    &&& 0 <= i < entries.len()
    &&& forall|j: int| 0 <= j < entries.len() ==> #[trigger] entries[j].1.executions() >= entries[i].1.executions()
    &&& forall|j: int| 0 <= j < i ==> #[trigger] entries[j].1.executions() > entries[i].1.executions()
}

/// The outcome of handing out the first least-loaded free resource, or refusing with `msg`.
pub open spec fn least_loaded_or_refused<T: Clone + Workload>(
    r: Result<T, OrchestrationError>,
    entries: Seq<(Seq<char>, T)>,
    msg: Seq<char>,
) -> bool {
    if entries.len() == 0 {
        refused(r, msg)
    } else {
        exists|i: int| first_least_loaded(entries, i) && granted(r, entries, i)
    }
}

/// The position of the first least-loaded free resource, if any is free.
pub fn pick_least_loaded<T: Workload>(pool: &ResourcePool<T>) -> (r: Option<usize>)
    requires
        pool.wf(),
    ensures
        r matches Some(i) ==> first_least_loaded(pool.available_entries(), i as int),
        r is None ==> pool.available_entries().len() == 0,
{
    proof { pool.lemma_listings(); }
    let values = pool.get_available_resources();
    if values.len() == 0 {
        return None;
    }
    let ghost es = pool.available_entries();
    let mut best: usize = 0;
    let mut best_load: u64 = values[0].total_executions();
    let mut i: usize = 1;
    while i < values.len()
        invariant
            1 <= i <= values@.len(),
            best < i,
            values@.len() == es.len(),
            es == pool.available_entries(),
            forall|m: int| 0 <= m < values@.len() ==> *values@[m] == #[trigger] es[m].1,
            best_load == es[best as int].1.executions(),
            forall|j: int| 0 <= j < i ==> #[trigger] es[j].1.executions() >= es[best as int].1.executions(),
            forall|j: int| 0 <= j < best ==> #[trigger] es[j].1.executions() > es[best as int].1.executions(),
        decreases values.len() - i,
    {
        let load = values[i].total_executions();
        if load < best_load {
            best = i;
            best_load = load;
        }
        i = i + 1;
    }
    Some(best)
}

fn least_loaded<T: Clone + Workload>(pool: &ResourcePool<T>, msg: &str) -> (r: Result<T, OrchestrationError>)
    requires
        pool.wf(),
    ensures
        least_loaded_or_refused(r, pool.available_entries(), msg@),
{
    match pick_least_loaded(pool) {
        Some(i) => Ok(clone_listed(pool, i)),
        None => Err(OrchestrationError::ResourceAllocationError(String::from_str(msg))),
    }
}

/// Hands out the free resource that has run the fewest executions.
pub struct LoadBalancedStrategy;

impl LoadBalancedStrategy {
    /// The strategy.
    pub fn new() -> Self {
        LoadBalancedStrategy
    }

    /// The first least-loaded free agent.
    pub fn allocate_agent(&self, requirement: &AgentRequirement, pool: &ResourcePool<AgentResource>)
        -> (r: Result<AgentResource, OrchestrationError>)
        requires
            pool.wf(),
        ensures
            least_loaded_or_refused(r, pool.available_entries(), "No agents available"@),
    {
        least_loaded(pool, "No agents available")
    }

    /// The first least-loaded free language-model instance.
    pub fn allocate_llm(&self, requirement: &LLMRequirement, pool: &ResourcePool<LLMResource>)
        -> (r: Result<LLMResource, OrchestrationError>)
        requires
            pool.wf(),
        ensures
            least_loaded_or_refused(r, pool.available_entries(), "No LLM instances available"@),
    {
        least_loaded(pool, "No LLM instances available")
    }

    /// The first least-loaded free task executor.
    pub fn allocate_task(&self, requirement: &TaskRequirement, pool: &ResourcePool<TaskResource>)
        -> (r: Result<TaskResource, OrchestrationError>)
        requires
            pool.wf(),
        ensures
            least_loaded_or_refused(r, pool.available_entries(), "No task resources available"@),
    {
        least_loaded(pool, "No task resources available")
    }

    /// The first least-loaded free workflow executor.
    pub fn allocate_workflow(&self, requirement: &WorkflowRequirement, pool: &ResourcePool<WorkflowResource>)
        -> (r: Result<WorkflowResource, OrchestrationError>)
        requires
            pool.wf(),
        ensures
            least_loaded_or_refused(r, pool.available_entries(), "No workflow resources available"@),
    {
        least_loaded(pool, "No workflow resources available")
    }
}

/// Whether an executor offering `offer` meets `need`: an absent need asks for
/// nothing, and an absent offer sets no limit.
pub open spec fn fits(need: ResourceRequirement, offer: ResourceRequirement) -> bool {
    &&& (match need.cpu_cores { Some(c) => c, None => 0 }) <= (match offer.cpu_cores { Some(c) => c, None => u32::MAX })
    &&& (match need.memory_mb { Some(m) => m, None => 0 }) <= (match offer.memory_mb { Some(m) => m, None => u64::MAX })
}

fn fits_exec(need: &ResourceRequirement, offer: &ResourceRequirement) -> (b: bool)
    ensures
        b == fits(*need, *offer),
{
    let need_cpu: u32 = match need.cpu_cores { Some(c) => c, None => 0 };
    let offer_cpu: u32 = match offer.cpu_cores { Some(c) => c, None => u32::MAX };
    let need_mem: u64 = match need.memory_mb { Some(m) => m, None => 0 };
    let offer_mem: u64 = match offer.memory_mb { Some(m) => m, None => u64::MAX };
    need_cpu <= offer_cpu && need_mem <= offer_mem
}

/// Position `i` holds the first free task executor that meets `need`.
pub open spec fn first_fitting(entries: Seq<(Seq<char>, TaskResource)>, need: ResourceRequirement, i: int) -> bool {
    &&& 0 <= i < entries.len()
    &&& fits(need, entries[i].1.resource_requirements)
    &&& forall|j: int| 0 <= j < i ==> !fits(need, #[trigger] entries[j].1.resource_requirements)
}

/// The first fitting executor is the one `choose` names.
pub proof fn lemma_first_fitting_unique(entries: Seq<(Seq<char>, TaskResource)>, need: ResourceRequirement, i: int)
    requires
        first_fitting(entries, need, i),
    ensures
        (choose|c: int| first_fitting(entries, need, c)) == i,
{
    let c = choose|c: int| first_fitting(entries, need, c);
    if c < i {
        assert(!fits(need, entries[c].1.resource_requirements));
    } else if c > i {
        assert(!fits(need, entries[i].1.resource_requirements));
    }
}

/// Hands out task executors that meet a task's needs, and other resources first come, first served.
pub struct PriorityBasedStrategy;

impl PriorityBasedStrategy {
    /// The strategy.
    pub fn new() -> Self {
        PriorityBasedStrategy
    }

    /// The first free agent.
    pub fn allocate_agent(&self, requirement: &AgentRequirement, pool: &ResourcePool<AgentResource>)
        -> (r: Result<AgentResource, OrchestrationError>)
        requires
            pool.wf(),
        ensures
            first_or_refused(r, pool.available_entries(), "No agents available"@),
    {
        first_available(pool, "No agents available")
    }

    /// The first free language-model instance.
    pub fn allocate_llm(&self, requirement: &LLMRequirement, pool: &ResourcePool<LLMResource>)
        -> (r: Result<LLMResource, OrchestrationError>)
        requires
            pool.wf(),
        ensures
            first_or_refused(r, pool.available_entries(), "No LLM instances available"@),
    {
        first_available(pool, "No LLM instances available")
    }

    /// The position of the first free task executor that meets the task's CPU and memory needs.
    pub fn pick_task(&self, requirement: &TaskRequirement, pool: &ResourcePool<TaskResource>) -> (r: Option<usize>)
        requires
            pool.wf(),
        ensures
            r matches Some(i) ==> first_fitting(pool.available_entries(), requirement.resource_requirements, i as int),
            r is None ==> forall|i: int| 0 <= i < pool.available_entries().len()
                ==> !fits(requirement.resource_requirements, #[trigger] pool.available_entries()[i].1.resource_requirements),
    {
        proof { pool.lemma_listings(); }
        let values = pool.get_available_resources();
        let mut i: usize = 0;
        while i < values.len()
            invariant
                i <= values@.len(),
                values@.len() == pool.available_entries().len(),
                forall|m: int| 0 <= m < values@.len() ==> *values@[m] == #[trigger] pool.available_entries()[m].1,
                forall|m: int| 0 <= m < i ==> !fits(requirement.resource_requirements, #[trigger] pool.available_entries()[m].1.resource_requirements),
            decreases values.len() - i,
        {
            let task: &TaskResource = values[i];
            if fits_exec(&requirement.resource_requirements, &task.resource_requirements) {
                return Some(i);
            }
            i = i + 1;
        }
        None
    }

    /// The first free task executor that meets the task's CPU and memory needs.
    pub fn allocate_task(&self, requirement: &TaskRequirement, pool: &ResourcePool<TaskResource>)
        -> (r: Result<TaskResource, OrchestrationError>)
        requires
            pool.wf(),
        ensures
            (exists|i: int| first_fitting(pool.available_entries(), requirement.resource_requirements, i))
                ==> granted(r, pool.available_entries(),
                    choose|i: int| first_fitting(pool.available_entries(), requirement.resource_requirements, i)),
            (forall|i: int| 0 <= i < pool.available_entries().len()
                ==> !fits(requirement.resource_requirements, #[trigger] pool.available_entries()[i].1.resource_requirements))
                ==> refused(r, "No suitable task resources available for the given requirements"@),
    {
        match self.pick_task(requirement, pool) {
            Some(i) => {
                proof { lemma_first_fitting_unique(pool.available_entries(), requirement.resource_requirements, i as int); }
                Ok(clone_listed(pool, i))
            },
            None => Err(OrchestrationError::ResourceAllocationError(
                String::from_str("No suitable task resources available for the given requirements"),
            )),
        }
    }

    /// The first free workflow executor.
    pub fn allocate_workflow(&self, requirement: &WorkflowRequirement, pool: &ResourcePool<WorkflowResource>)
        -> (r: Result<WorkflowResource, OrchestrationError>)
        requires
            pool.wf(),
        ensures
            first_or_refused(r, pool.available_entries(), "No workflow resources available"@),
    {
        first_available(pool, "No workflow resources available")
    }
}

} // verus!
