use vstd::prelude::*;
use crate::keyed::{StringTable, map_of, distinct_keys, lemma_map_of_len};
use crate::orchestration::errors::{OrchestrationError, OrchestrationErrorKind};
use crate::text::concat_str;
use crate::orchestration::definitions::{ResourceRequirement, TaskExecutionConfig};

verus! {

/// The kinds of resource a pool can hold.
#[derive(Debug, Clone, Copy, PartialEq, Eq, Structural)]
pub enum ResourceType {
    Agent,
    LLM,
    Task,
    Workflow,
}

/// Whether a resource can take work.
#[derive(Debug, Clone)]
pub enum AvailabilityStatus {
    Available,
    Busy,
    Maintenance,
    Error(String),
}

/// Resources that carry their own identifier.
pub trait HasId {
    /// The identifier.
    spec fn id_view(&self) -> Seq<char>;

    fn get_id(&self) -> (r: String)
        ensures
            r@ == self.id_view();
}

/// An operation on a pool, by the identifier it names.
pub enum PoolOp {
    Add(Seq<char>),
    Allocate(Seq<char>),
    Release(Seq<char>),
}

/// The free and allocated identifiers after `op`: an addition frees its
/// identifier; an allocation of a free identifier moves it to the allocated
/// ones, of any other changes nothing; a release of an allocated identifier
/// moves it back, of any other changes nothing.
pub open spec fn pool_after(free: Set<Seq<char>>, taken: Set<Seq<char>>, op: PoolOp) -> (Set<Seq<char>>, Set<Seq<char>>) {
    match op {
        PoolOp::Add(id) => (free.insert(id), taken),
        PoolOp::Allocate(id) => if free.contains(id) { (free.remove(id), taken.insert(id)) } else { (free, taken) },
        PoolOp::Release(id) => if taken.contains(id) { (free.insert(id), taken.remove(id)) } else { (free, taken) },
    }
}

/// The free and allocated identifiers of a new pool after `ops`, in order.
pub open spec fn pool_run(ops: Seq<PoolOp>) -> (Set<Seq<char>>, Set<Seq<char>>)
    decreases ops.len(),
{
    if ops.len() == 0 {
        (Set::empty(), Set::empty())
    } else {
        let prev = pool_run(ops.drop_last());
        pool_after(prev.0, prev.1, ops.last())
    }
}

/// No addition in `ops` names an identifier allocated at that point.
pub open spec fn adds_only_unallocated(ops: Seq<PoolOp>) -> bool {
    forall|i: int| 0 <= i < ops.len() ==> (#[trigger] ops[i] matches PoolOp::Add(id) ==> !pool_run(ops.take(i)).1.contains(id))
}

/// The allocation at step `i` of `ops` took the identifier `id`, and no later
/// step released it.
pub open spec fn still_held(ops: Seq<PoolOp>, id: Seq<char>, i: int) -> bool {
    &&& 0 <= i < ops.len()
    &&& ops[i] == PoolOp::Allocate(id)
    &&& pool_run(ops.take(i)).0.contains(id)
    &&& forall|j: int| i < j < ops.len() ==> #[trigger] ops[j] != PoolOp::Release(id)
}

/// Over any run of operations on a new pool that never adds an allocated
/// identifier, no identifier is both free and allocated, and an identifier is
/// allocated exactly when some allocation of it succeeded and no release of it
/// came after.
pub proof fn lemma_pool_run(ops: Seq<PoolOp>)
    requires
        adds_only_unallocated(ops),
    ensures
        forall|id: Seq<char>| !(#[trigger] pool_run(ops).0.contains(id) && pool_run(ops).1.contains(id)),
        forall|id: Seq<char>| #[trigger] pool_run(ops).1.contains(id) <==> exists|i: int| still_held(ops, id, i),
    decreases ops.len(),
{
    if ops.len() > 0 {
        let init = ops.drop_last();
        let n = ops.len() - 1;
        assert forall|i: int| 0 <= i < init.len() implies (#[trigger] init[i] matches PoolOp::Add(id) ==> !pool_run(init.take(i)).1.contains(id)) by {
            assert(init.take(i) =~= ops.take(i));
            assert(init[i] == ops[i]);
        }
        lemma_pool_run(init);
        assert(ops.take(n) =~= init);
        let prev = pool_run(init);
        assert forall|id: Seq<char>| #[trigger] pool_run(ops).1.contains(id) <==> exists|i: int| still_held(ops, id, i) by {
            if pool_run(ops).1.contains(id) {
                if ops.last() == PoolOp::Allocate(id) && prev.0.contains(id) {
                    assert(still_held(ops, id, n));
                } else {
                    assert(prev.1.contains(id));
                    let i = choose|i: int| still_held(init, id, i);
                    assert(ops.take(i) =~= init.take(i));
                    assert(ops[i] == init[i]);
                    assert forall|j: int| i < j < ops.len() implies #[trigger] ops[j] != PoolOp::Release(id) by {
                        if j < n {
                            assert(ops[j] == init[j]);
                        }
                    }
                    assert(still_held(ops, id, i));
                }
            }
            if exists|i: int| still_held(ops, id, i) {
                let i = choose|i: int| still_held(ops, id, i);
                if i == n {
                    assert(pool_run(ops).1.contains(id));
                } else {
                    assert(ops.take(i) =~= init.take(i));
                    assert(ops[i] == init[i]);
                    assert forall|j: int| i < j < init.len() implies #[trigger] init[j] != PoolOp::Release(id) by {
                        assert(init[j] == ops[j]);
                    }
                    assert(still_held(init, id, i));
                    assert(prev.1.contains(id));
                    assert(ops[n] != PoolOp::Release(id));
                    assert(ops.last() == ops[n]);
                    assert(ops[n] matches PoolOp::Add(a) ==> !pool_run(ops.take(n)).1.contains(a));
                }
            }
        }
        assert(ops.last() == ops[n]);
    }
}

/// A pool of resources of one kind, each known by its identifier, either free
/// to allocate or allocated.
pub struct ResourcePool<T> {
    resource_type: ResourceType,
    available_resources: StringTable<T>,
    allocated_resources: StringTable<T>,
}

impl<T> ResourcePool<T> {
    /// The free resources, by identifier.
    pub closed spec fn available(&self) -> Map<Seq<char>, T> {
        self.available_resources.map()
    }

    /// The allocated resources, by identifier.
    pub closed spec fn allocated(&self) -> Map<Seq<char>, T> {
        self.allocated_resources.map()
    }

    /// The free resources in the order in which they are listed.
    pub closed spec fn available_entries(&self) -> Seq<(Seq<char>, T)> {
        self.available_resources.entries()
    }

    /// The allocated resources in the order in which they are listed.
    pub closed spec fn allocated_entries(&self) -> Seq<(Seq<char>, T)> {
        self.allocated_resources.entries()
    }

    /// The kind of resource the pool holds.
    pub closed spec fn kind(&self) -> ResourceType {
        self.resource_type
    }

    /// No identifier is both free and allocated.
    pub open spec fn disjoint(&self) -> bool {
        forall|k: Seq<char>| !(#[trigger] self.available().contains_key(k) && self.allocated().contains_key(k))
    }

    /// Each listing holds an identifier once, and describes its map.
    pub closed spec fn wf(&self) -> bool {
        &&& self.available_resources.wf()
        &&& self.allocated_resources.wf()
    }

    /// The listings of a well-formed pool have distinct identifiers and describe its maps.
    pub proof fn lemma_listings(&self)
        requires
            self.wf(),
        ensures
            distinct_keys(self.available_entries()),
            distinct_keys(self.allocated_entries()),
            map_of(self.available_entries()) == self.available(),
            map_of(self.allocated_entries()) == self.allocated(),
            self.available_entries().len() == self.available().dom().len(),
            self.allocated_entries().len() == self.allocated().dom().len(),
            self.available().dom().finite(),
            self.allocated().dom().finite(),
    {
        lemma_map_of_len(self.available_entries());
        lemma_map_of_len(self.allocated_entries());
    }

    /// An empty pool for resources of the given kind.
    pub fn new(resource_type: ResourceType) -> (p: Self)
        ensures
            p.wf(),
            p.disjoint(),
            p.kind() == resource_type,
            p.available() == Map::<Seq<char>, T>::empty(),
            p.allocated() == Map::<Seq<char>, T>::empty(),
    {
        ResourcePool {
            resource_type,
            available_resources: StringTable::new(),
            allocated_resources: StringTable::new(),
        }
    }

    /// Makes `resource` available under `id`, replacing a free resource of that identifier.
    pub fn add_resource_with_id(&mut self, id: String, resource: T)
        requires
            old(self).wf(),
        ensures
            final(self).wf(),
            final(self).kind() == old(self).kind(),
            final(self).available() == old(self).available().insert(id@, resource),
            final(self).allocated() == old(self).allocated(),
            old(self).disjoint() && !old(self).allocated().contains_key(id@) ==> final(self).disjoint(),
            (final(self).available().dom(), final(self).allocated().dom())
                == pool_after(old(self).available().dom(), old(self).allocated().dom(), PoolOp::Add(id@)),
    {
        self.available_resources.insert(id, resource);
        assert(self.available().dom() =~= old(self).available().dom().insert(id@));
    }

    /// Makes `resource` available under the identifier it reports.
    pub fn add_resource(&mut self, resource: T) -> (r: Result<(), OrchestrationError>)
        where T: HasId,
        requires
            old(self).wf(),
        ensures
            r is Ok,
            final(self).wf(),
            final(self).kind() == old(self).kind(),
            final(self).available() == old(self).available().insert(resource.id_view(), resource),
            final(self).allocated() == old(self).allocated(),
            old(self).disjoint() && !old(self).allocated().contains_key(resource.id_view()) ==> final(self).disjoint(),
            (final(self).available().dom(), final(self).allocated().dom())
                == pool_after(old(self).available().dom(), old(self).allocated().dom(), PoolOp::Add(resource.id_view())),
    {
        let id = resource.get_id();
        self.add_resource_with_id(id, resource);
        Ok(())
    }

    /// Moves the free resource `resource_id` to the allocated ones and returns it;
    /// the allocated side keeps a clone of it.
    pub fn allocate_resource(&mut self, resource_id: &str) -> (r: Result<T, OrchestrationError>)
        where T: Clone,
        requires
            old(self).wf(),
        ensures
            final(self).wf(),
            final(self).kind() == old(self).kind(),
            old(self).available().contains_key(resource_id@) ==> {
                &&& r matches Ok(v) && v == old(self).available()[resource_id@]
                &&& final(self).available() == old(self).available().remove(resource_id@)
                &&& exists|c: T| cloned(old(self).available()[resource_id@], c)
                    && final(self).allocated() == old(self).allocated().insert(resource_id@, c)
            },
            !old(self).available().contains_key(resource_id@) ==> {
                &&& r matches Err(e) && e@ == (OrchestrationErrorKind::ResourceAllocation,
                    "Resource not available: "@ + resource_id@)
                &&& final(self).available() == old(self).available()
                &&& final(self).allocated() == old(self).allocated()
            },
            old(self).disjoint() ==> final(self).disjoint(),
            (final(self).available().dom(), final(self).allocated().dom())
                == pool_after(old(self).available().dom(), old(self).allocated().dom(), PoolOp::Allocate(resource_id@)),
    {
        match self.available_resources.remove(resource_id) {
            Some(resource) => {
                let copy = resource.clone();
                let ghost c = copy;
                let key = String::from_str(resource_id);
                assert(key@ == resource_id@);
                self.allocated_resources.insert(key, copy);
                assert(cloned(resource, c));
                assert(self.allocated() == old(self).allocated().insert(resource_id@, c));
                assert(self.available().dom() =~= old(self).available().dom().remove(resource_id@));
                assert(self.allocated().dom() =~= old(self).allocated().dom().insert(resource_id@));
                Ok(resource)
            },
            None => Err(OrchestrationError::ResourceAllocationError(
                concat_str("Resource not available: ", resource_id),
            )),
        }
    }

    /// Moves the free resource listed at position `i` to the allocated ones and
    /// returns it; the allocated side keeps a clone of it.
    pub fn allocate_at(&mut self, i: usize) -> (r: T)
        where T: Clone,
        requires
            old(self).wf(),
            i < old(self).available_entries().len(),
        ensures
            final(self).wf(),
            final(self).kind() == old(self).kind(),
            r == old(self).available_entries()[i as int].1,
            final(self).available_entries() == old(self).available_entries().remove(i as int),
            final(self).available() == old(self).available().remove(old(self).available_entries()[i as int].0),
            exists|c: T| cloned(r, c)
                && final(self).allocated() == old(self).allocated().insert(old(self).available_entries()[i as int].0, c),
            old(self).disjoint() ==> final(self).disjoint(),
    {
        proof { self.lemma_listings(); }
        let ghost es = self.available_entries();
        let key = self.available_resources.key_at(i).clone();
        proof {
            crate::keyed::lemma_map_of_entry(es, i as int);
        }
        let removed = self.available_resources.remove(key.as_str());
        proof {
            let j = choose|j: int| 0 <= j < es.len() && es[j].0 == key@
                && self.available_resources.entries() == es.remove(j);
            assert(j == i as int);
        }
        let resource = removed.unwrap();
        let copy = resource.clone();
        let ghost c = copy;
        self.allocated_resources.insert(key, copy);
        assert(cloned(resource, c));
        resource
    }

    /// Moves the allocated resource `resource_id`, if any, back to the free ones.
    pub fn release_resource(&mut self, resource_id: &str) -> (r: Result<(), OrchestrationError>)
        requires
            old(self).wf(),
        ensures
            r is Ok,
            final(self).wf(),
            final(self).kind() == old(self).kind(),
            old(self).allocated().contains_key(resource_id@) ==> {
                &&& final(self).allocated() == old(self).allocated().remove(resource_id@)
                &&& final(self).available() == old(self).available().insert(
                    resource_id@, old(self).allocated()[resource_id@])
            },
            !old(self).allocated().contains_key(resource_id@) ==> {
                &&& final(self).allocated() == old(self).allocated()
                &&& final(self).available() == old(self).available()
            },
            old(self).disjoint() ==> final(self).disjoint(),
            (final(self).available().dom(), final(self).allocated().dom())
                == pool_after(old(self).available().dom(), old(self).allocated().dom(), PoolOp::Release(resource_id@)),
    {
        match self.allocated_resources.remove(resource_id) {
            Some(resource) => {
                self.available_resources.insert(String::from_str(resource_id), resource);
                assert(self.available().dom() =~= old(self).available().dom().insert(resource_id@));
                assert(self.allocated().dom() =~= old(self).allocated().dom().remove(resource_id@));
            },
            None => {},
        }
        Ok(())
    }

    /// The free resources, in listing order.
    pub fn get_available_resources(&self) -> (r: Vec<&T>)
        requires
            self.wf(),
        ensures
            r@.len() == self.available_entries().len(),
            forall|i: int| 0 <= i < r@.len() ==> *r@[i] == #[trigger] self.available_entries()[i].1,
    {
        self.available_resources.values()
    }

    /// The allocated resources, in listing order.
    pub fn get_allocated_resources(&self) -> (r: Vec<&T>)
        requires
            self.wf(),
        ensures
            r@.len() == self.allocated_entries().len(),
            forall|i: int| 0 <= i < r@.len() ==> *r@[i] == #[trigger] self.allocated_entries()[i].1,
    {
        self.allocated_resources.values()
    }

    /// How many resources are free.
    pub fn available_count(&self) -> (n: usize)
        requires
            self.wf(),
        ensures
            n == self.available().dom().len(),
    {
        self.available_resources.len()
    }

    /// How many resources are allocated.
    pub fn allocated_count(&self) -> (n: usize)
        requires
            self.wf(),
        ensures
            n == self.allocated().dom().len(),
    {
        self.allocated_resources.len()
    }

    /// How many resources the pool lists, free and allocated together.
    pub fn total_count(&self) -> (n: usize)
        requires
            self.wf(),
            self.available().dom().len() + self.allocated().dom().len() <= usize::MAX,
        ensures
            n == self.available().dom().len() + self.allocated().dom().len(),
    {
        self.available_resources.len() + self.allocated_resources.len()
    }

    /// Whether `resource_id` is free.
    pub fn is_available(&self, resource_id: &str) -> (b: bool)
        requires
            self.wf(),
        ensures
            b == self.available().contains_key(resource_id@),
    {
        self.available_resources.contains_key(resource_id)
    }

    /// Whether `resource_id` is allocated.
    pub fn is_allocated(&self, resource_id: &str) -> (b: bool)
        requires
            self.wf(),
        ensures
            b == self.allocated().contains_key(resource_id@),
    {
        self.allocated_resources.contains_key(resource_id)
    }

    /// The kind of resource the pool holds.
    pub fn resource_type(&self) -> (t: &ResourceType)
        ensures
            *t == self.kind(),
    {
        &self.resource_type
    }
}

/// Allocating a free resource that was not allocated, and then releasing it, leaves
/// the same resources allocated and the same identifiers free as before; the
/// resource freed again is a clone of the one allocated, and every other free
/// resource is unchanged.
pub proof fn lemma_allocate_release_round_trip<T: Clone>(
    before: ResourcePool<T>,
    mid: ResourcePool<T>,
    after: ResourcePool<T>,
    id: Seq<char>,
)
    requires
        before.available().contains_key(id),
        !before.allocated().contains_key(id),
        mid.available() == before.available().remove(id),
        exists|c: T| cloned(before.available()[id], c) && mid.allocated() == before.allocated().insert(id, c),
        after.allocated() == mid.allocated().remove(id),
        after.available() == mid.available().insert(id, mid.allocated()[id]),
    ensures
        after.allocated() == before.allocated(),
        after.available().dom() == before.available().dom(),
        cloned(before.available()[id], after.available()[id]),
        forall|k: Seq<char>| k != id && #[trigger] before.available().contains_key(k)
            ==> after.available()[k] == before.available()[k],
{
    let c = choose|c: T| cloned(before.available()[id], c) && mid.allocated() == before.allocated().insert(id, c);
    assert(after.allocated() =~= before.allocated());
    assert(after.available().dom() =~= before.available().dom());
}

/// Allocating a free resource that was not allocated moves exactly one resource
/// from the free side to the allocated side, so the total is unchanged.
pub proof fn lemma_allocate_moves_one<T: Clone>(before: ResourcePool<T>, after: ResourcePool<T>, id: Seq<char>)
    requires
        before.wf(),
        after.wf(),
        before.available().contains_key(id),
        !before.allocated().contains_key(id),
        after.available() == before.available().remove(id),
        exists|c: T| cloned(before.available()[id], c) && after.allocated() == before.allocated().insert(id, c),
    ensures
        after.available().dom().len() + 1 == before.available().dom().len(),
        after.allocated().dom().len() == before.allocated().dom().len() + 1,
        after.available().dom().len() + after.allocated().dom().len()
            == before.available().dom().len() + before.allocated().dom().len(),
{
    before.lemma_listings();
    after.lemma_listings();
    let c = choose|c: T| cloned(before.available()[id], c) && after.allocated() == before.allocated().insert(id, c);
    assert(after.available().dom() =~= before.available().dom().remove(id));
    assert(after.allocated().dom() =~= before.allocated().dom().insert(id));
}


/// Resources whose load is the number of executions they have run.
pub trait Workload {
    spec fn executions(&self) -> nat;

    fn total_executions(&self) -> (n: u64)
        ensures
            n == self.executions();
}

/// An agent as the allocation policies see it: its identifier, the names of its
/// technical skills, its status and how many executions it has run.
#[derive(Debug, Clone)]
pub struct AgentResource {
    pub id: String,
    pub skill_names: Vec<String>,
    pub availability_status: AvailabilityStatus,
    pub total_executions: u64,
}

/// A language-model instance as the allocation policies see it.
#[derive(Debug, Clone)]
pub struct LLMResource {
    pub id: String,
    pub provider: String,
    pub model: String,
    pub availability_status: AvailabilityStatus,
    pub total_executions: u64,
}

/// A task executor as the allocation policies see it, with the machine resources it offers.
#[derive(Debug, Clone)]
pub struct TaskResource {
    pub id: String,
    pub executor_id: String,
    pub resource_requirements: ResourceRequirement,
    pub availability_status: AvailabilityStatus,
    pub total_executions: u64,
}

/// A workflow executor as the allocation policies see it.
#[derive(Debug, Clone)]
pub struct WorkflowResource {
    pub id: String,
    pub workflow_id: String,
    pub executor_type: String,
    pub availability_status: AvailabilityStatus,
    pub total_executions: u64,
}

impl HasId for AgentResource {
    open spec fn id_view(&self) -> Seq<char> {
        self.id@
    }

    fn get_id(&self) -> (r: String) {
        self.id.clone()
    }
}

impl HasId for LLMResource {
    open spec fn id_view(&self) -> Seq<char> {
        self.id@
    }

    fn get_id(&self) -> (r: String) {
        self.id.clone()
    }
}

impl HasId for TaskResource {
    open spec fn id_view(&self) -> Seq<char> {
        self.id@
    }

    fn get_id(&self) -> (r: String) {
        self.id.clone()
    }
}

impl HasId for WorkflowResource {
    open spec fn id_view(&self) -> Seq<char> {
        self.id@
    }

    fn get_id(&self) -> (r: String) {
        self.id.clone()
    }
}

impl Workload for AgentResource {
    open spec fn executions(&self) -> nat {
        self.total_executions as nat
    }

    fn total_executions(&self) -> (n: u64) {
        self.total_executions
    }
}

impl Workload for LLMResource {
    open spec fn executions(&self) -> nat {
        self.total_executions as nat
    }

    fn total_executions(&self) -> (n: u64) {
        self.total_executions
    }
}

impl Workload for TaskResource {
    open spec fn executions(&self) -> nat {
        self.total_executions as nat
    }

    fn total_executions(&self) -> (n: u64) {
        self.total_executions
    }
}

impl Workload for WorkflowResource {
    open spec fn executions(&self) -> nat {
        self.total_executions as nat
    }

    fn total_executions(&self) -> (n: u64) {
        self.total_executions
    }
}

/// What an agent step asks of the agent it is given: the skills it must have.
#[derive(Debug, Clone)]
pub struct AgentRequirement {
    pub task_type: String,
    pub capabilities: Vec<String>,
}

/// What a language-model step asks: a provider and model, and the tokens it expects to use.
#[derive(Debug, Clone)]
pub struct LLMRequirement {
    pub provider: String,
    pub model: String,
    pub estimated_tokens: u32,
}

/// What a task step asks: its configuration and the machine resources it needs.
#[derive(Debug, Clone)]
pub struct TaskRequirement {
    pub config: TaskExecutionConfig,
    pub resource_requirements: ResourceRequirement,
}

/// What a workflow step asks: the workflow to run.
#[derive(Debug, Clone)]
pub struct WorkflowRequirement {
    pub workflow_id: String,
}

} // verus!
