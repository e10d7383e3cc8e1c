use vstd::prelude::*;

verus! {

/// How many resources of each kind are in use, and how many allocations and
/// deallocations have been recorded.
#[derive(Debug, Clone, Copy, PartialEq, Eq, Structural)]
pub struct ResourceUtilisation {
    pub active_agents: u32,
    pub active_llm_instances: u32,
    pub active_tasks: u32,
    pub active_workflows: u32,
    pub memory_usage_mb: u64,
    pub total_allocations: u64,
    pub total_deallocations: u64,
}

impl ResourceUtilisation {
    /// Nothing in use and nothing recorded.
    pub open spec fn zero() -> ResourceUtilisation {
        ResourceUtilisation {
            active_agents: 0,
            active_llm_instances: 0,
            active_tasks: 0,
            active_workflows: 0,
            memory_usage_mb: 0,
            total_allocations: 0,
            total_deallocations: 0,
        }
    }
}

impl Default for ResourceUtilisation {
    fn default() -> (u: Self)
        ensures
            u == ResourceUtilisation::zero(),
    {
        ResourceUtilisation {
            active_agents: 0,
            active_llm_instances: 0,
            active_tasks: 0,
            active_workflows: 0,
            memory_usage_mb: 0,
            total_allocations: 0,
            total_deallocations: 0,
        }
    }
}

/// How many resources of each kind one allocation holds.
#[derive(Debug, Clone, Copy)]
pub struct AllocationCounts {
    pub agents: usize,
    pub llm_instances: usize,
    pub tasks: usize,
    pub workflows: usize,
}

/// The highest number of resources of each kind in use at once.
#[derive(Debug, Clone, Copy, PartialEq, Eq, Structural)]
pub struct PeakUsageStats {
    pub peak_agents: u32,
    pub peak_llm_instances: u32,
    pub peak_tasks: u32,
    pub peak_workflows: u32,
}

/// Records allocations and deallocations of resources, and the peak usage.
pub struct ResourceUsageTracker {
    total_allocations: u64,
    total_deallocations: u64,
    peak_agent_usage: u32,
    peak_llm_usage: u32,
    peak_task_usage: u32,
    peak_workflow_usage: u32,
    current_usage: ResourceUtilisation,
}

/// The larger of two counts.
pub open spec fn larger(a: u32, b: u32) -> u32 {
    if a >= b { a } else { b }
}

/// A count less another, stopping at zero.
pub open spec fn less_or_zero(a: u32, b: u32) -> u32 {
    if a >= b { (a - b) as u32 } else { 0 }
}

/// A length as a `u32`, as a cast gives it.
pub open spec fn as_count(n: usize) -> u32 {
    #[verifier::truncate] (n as u32)
}

impl ResourceUsageTracker {
    /// The current usage.
    pub closed spec fn usage(&self) -> ResourceUtilisation {
        self.current_usage
    }

    /// The peak usage.
    pub closed spec fn peaks(&self) -> PeakUsageStats {
        PeakUsageStats {
            peak_agents: self.peak_agent_usage,
            peak_llm_instances: self.peak_llm_usage,
            peak_tasks: self.peak_task_usage,
            peak_workflows: self.peak_workflow_usage,
        }
    }

    /// The number of allocations recorded.
    pub closed spec fn allocations(&self) -> u64 {
        self.total_allocations
    }

    /// The number of deallocations recorded.
    pub closed spec fn deallocations(&self) -> u64 {
        self.total_deallocations
    }

    /// A tracker with nothing recorded.
    pub fn new() -> (t: Self)
        ensures
            t.usage() == ResourceUtilisation::zero(),
            t.peaks() == (PeakUsageStats { peak_agents: 0, peak_llm_instances: 0, peak_tasks: 0, peak_workflows: 0 }),
            t.allocations() == 0,
            t.deallocations() == 0,
    {
        ResourceUsageTracker {
            total_allocations: 0,
            total_deallocations: 0,
            peak_agent_usage: 0,
            peak_llm_usage: 0,
            peak_task_usage: 0,
            peak_workflow_usage: 0,
            current_usage: ResourceUtilisation::default(),
        }
    }

    /// Records an allocation, as [`allocation_recorded`] states.
    pub fn record_allocation(&mut self, resources: &AllocationCounts)
        requires
            old(self).allocations() < u64::MAX,
            old(self).usage().active_agents + as_count(resources.agents) <= u32::MAX,
            old(self).usage().active_llm_instances + as_count(resources.llm_instances) <= u32::MAX,
            old(self).usage().active_tasks + as_count(resources.tasks) <= u32::MAX,
            old(self).usage().active_workflows + as_count(resources.workflows) <= u32::MAX,
        ensures
            allocation_recorded(*old(self), *final(self), *resources),
    {
        self.total_allocations = self.total_allocations + 1;
        self.current_usage.active_agents = self.current_usage.active_agents + #[verifier::truncate] (resources.agents as u32);
        self.current_usage.active_llm_instances = self.current_usage.active_llm_instances
            + #[verifier::truncate] (resources.llm_instances as u32);
        self.current_usage.active_tasks = self.current_usage.active_tasks + #[verifier::truncate] (resources.tasks as u32);
        self.current_usage.active_workflows = self.current_usage.active_workflows
            + #[verifier::truncate] (resources.workflows as u32);
        self.current_usage.total_allocations = self.total_allocations;
        if self.current_usage.active_agents > self.peak_agent_usage {
            self.peak_agent_usage = self.current_usage.active_agents;
        }
        if self.current_usage.active_llm_instances > self.peak_llm_usage {
            self.peak_llm_usage = self.current_usage.active_llm_instances;
        }
        if self.current_usage.active_tasks > self.peak_task_usage {
            self.peak_task_usage = self.current_usage.active_tasks;
        }
        if self.current_usage.active_workflows > self.peak_workflow_usage {
            self.peak_workflow_usage = self.current_usage.active_workflows;
        }
    }

    /// Records a deallocation, as [`deallocation_recorded`] states.
    pub fn record_deallocation(&mut self, resources: &AllocationCounts)
        requires
            old(self).deallocations() < u64::MAX,
        ensures
            deallocation_recorded(*old(self), *final(self), *resources),
    {
        self.total_deallocations = self.total_deallocations + 1;
        self.current_usage.active_agents = self.current_usage.active_agents.saturating_sub(
            #[verifier::truncate] (resources.agents as u32));
        self.current_usage.active_llm_instances = self.current_usage.active_llm_instances.saturating_sub(
            #[verifier::truncate] (resources.llm_instances as u32));
        self.current_usage.active_tasks = self.current_usage.active_tasks.saturating_sub(
            #[verifier::truncate] (resources.tasks as u32));
        self.current_usage.active_workflows = self.current_usage.active_workflows.saturating_sub(
            #[verifier::truncate] (resources.workflows as u32));
        self.current_usage.total_deallocations = self.total_deallocations;
    }

    /// The current usage.
    pub fn get_utilisation(&self) -> (u: ResourceUtilisation)
        ensures
            u == self.usage(),
    {
        self.current_usage
    }

    /// The peak usage.
    pub fn get_peak_usage(&self) -> (p: PeakUsageStats)
        ensures
            p == self.peaks(),
    {
        PeakUsageStats {
            peak_agents: self.peak_agent_usage,
            peak_llm_instances: self.peak_llm_usage,
            peak_tasks: self.peak_task_usage,
            peak_workflows: self.peak_workflow_usage,
        }
    }

    /// Forgets everything recorded.
    pub fn reset_statistics(&mut self)
        ensures
            final(self).usage() == ResourceUtilisation::zero(),
            final(self).peaks() == (PeakUsageStats { peak_agents: 0, peak_llm_instances: 0, peak_tasks: 0, peak_workflows: 0 }),
            final(self).allocations() == 0,
            final(self).deallocations() == 0,
    {
        self.total_allocations = 0;
        self.total_deallocations = 0;
        self.peak_agent_usage = 0;
        self.peak_llm_usage = 0;
        self.peak_task_usage = 0;
        self.peak_workflow_usage = 0;
        self.current_usage = ResourceUtilisation::default();
    }

    /// The number of allocations recorded.
    pub fn total_allocations(&self) -> (n: u64)
        ensures
            n == self.allocations(),
    {
        self.total_allocations
    }

    /// The number of deallocations recorded.
    pub fn total_deallocations(&self) -> (n: u64)
        ensures
            n == self.deallocations(),
    {
        self.total_deallocations
    }

    /// The number of resources in use, of all kinds together.
    pub fn total_active_resources(&self) -> (n: u32)
        requires
            self.usage().active_agents + self.usage().active_llm_instances + self.usage().active_tasks
                + self.usage().active_workflows <= u32::MAX,
        ensures
            n == self.usage().active_agents + self.usage().active_llm_instances + self.usage().active_tasks
                + self.usage().active_workflows,
    {
        self.current_usage.active_agents + self.current_usage.active_llm_instances + self.current_usage.active_tasks
            + self.current_usage.active_workflows
    }
}

impl Default for ResourceUsageTracker {
    fn default() -> (t: Self)
        ensures
            t.usage() == ResourceUtilisation::zero(),
            t.allocations() == 0,
            t.deallocations() == 0,
    {
        Self::new()
    }
}

/// The peaks of a tracker are never below the counts in use, whatever was recorded.
pub open spec fn peaks_cover(p: PeakUsageStats, u: ResourceUtilisation) -> bool {
    &&& p.peak_agents >= u.active_agents
    &&& p.peak_llm_instances >= u.active_llm_instances
    &&& p.peak_tasks >= u.active_tasks
    &&& p.peak_workflows >= u.active_workflows
}

/// `after` is `before` with an allocation of `resources` recorded: the count of
/// allocations goes up by one, each resource count by the allocation's (each
/// length taken as a `u32`), and each peak to the larger of itself and the new count.
pub open spec fn allocation_recorded(before: ResourceUsageTracker, after: ResourceUsageTracker, resources: AllocationCounts) -> bool {
    &&& after.allocations() == before.allocations() + 1
    &&& after.deallocations() == before.deallocations()
    &&& after.usage() == (ResourceUtilisation {
        active_agents: (before.usage().active_agents + as_count(resources.agents)) as u32,
        active_llm_instances: (before.usage().active_llm_instances + as_count(resources.llm_instances)) as u32,
        active_tasks: (before.usage().active_tasks + as_count(resources.tasks)) as u32,
        active_workflows: (before.usage().active_workflows + as_count(resources.workflows)) as u32,
        total_allocations: (before.allocations() + 1) as u64,
        ..before.usage()
    })
    &&& after.peaks() == (PeakUsageStats {
        peak_agents: larger(before.peaks().peak_agents, after.usage().active_agents),
        peak_llm_instances: larger(before.peaks().peak_llm_instances, after.usage().active_llm_instances),
        peak_tasks: larger(before.peaks().peak_tasks, after.usage().active_tasks),
        peak_workflows: larger(before.peaks().peak_workflows, after.usage().active_workflows),
    })
}

/// `after` is `before` with a deallocation of `resources` recorded: the count of
/// deallocations goes up by one and each resource count down by the
/// allocation's, stopping at zero; the peaks stay.
pub open spec fn deallocation_recorded(before: ResourceUsageTracker, after: ResourceUsageTracker, resources: AllocationCounts) -> bool {
    &&& after.allocations() == before.allocations()
    &&& after.deallocations() == before.deallocations() + 1
    &&& after.usage() == (ResourceUtilisation {
        active_agents: less_or_zero(before.usage().active_agents, as_count(resources.agents)),
        active_llm_instances: less_or_zero(before.usage().active_llm_instances, as_count(resources.llm_instances)),
        active_tasks: less_or_zero(before.usage().active_tasks, as_count(resources.tasks)),
        active_workflows: less_or_zero(before.usage().active_workflows, as_count(resources.workflows)),
        total_deallocations: (before.deallocations() + 1) as u64,
        ..before.usage()
    })
    &&& after.peaks() == before.peaks()
}

/// Recording an allocation or a deallocation keeps every peak at or above the
/// count in use.
pub proof fn lemma_peaks_cover_usage(before: ResourceUsageTracker, after: ResourceUsageTracker, resources: AllocationCounts)
    requires
        peaks_cover(before.peaks(), before.usage()),
        allocation_recorded(before, after, resources) || deallocation_recorded(before, after, resources),
    ensures
        peaks_cover(after.peaks(), after.usage()),
{
}

/// Recording the deallocation of what was just allocated gives back the counts
/// in use before the allocation, and leaves one more allocation and one more
/// deallocation recorded.
pub proof fn lemma_deallocate_undoes_allocate(
    start: ResourceUsageTracker,
    mid: ResourceUsageTracker,
    end: ResourceUsageTracker,
    resources: AllocationCounts,
)
    requires
        start.usage().active_agents + as_count(resources.agents) <= u32::MAX,
        start.usage().active_llm_instances + as_count(resources.llm_instances) <= u32::MAX,
        start.usage().active_tasks + as_count(resources.tasks) <= u32::MAX,
        start.usage().active_workflows + as_count(resources.workflows) <= u32::MAX,
        allocation_recorded(start, mid, resources),
        deallocation_recorded(mid, end, resources),
    ensures
        end.usage().active_agents == start.usage().active_agents,
        end.usage().active_llm_instances == start.usage().active_llm_instances,
        end.usage().active_tasks == start.usage().active_tasks,
        end.usage().active_workflows == start.usage().active_workflows,
        end.allocations() == start.allocations() + 1,
        end.deallocations() == start.deallocations() + 1,
{
}

} // verus!
