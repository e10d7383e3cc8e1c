use vstd::prelude::*;
use crate::keyed::StringTable;
use crate::orchestration::flow::{BlockOutline, BlockShape, FlowOutline};
use crate::text::{concat_str, str_eq};

verus! {

/// A group of branches that run side by side, and how their results are merged.
#[derive(Debug, Clone)]
pub struct ParallelGroup {
    pub group_id: String,
    pub block_ids: Vec<String>,
    pub merge_strategy: String,
}

/// The plan for running a flow: the blocks in the order a depth-first walk from
/// the start block meets them, the parallel groups, an estimate of the running
/// time, and how many agents, language-model instances and tasks it needs.
#[derive(Debug, Clone)]
pub struct ExecutionPlan {
    pub flow_id: String,
    pub execution_order: Vec<String>,
    pub parallel_groups: Vec<ParallelGroup>,
    pub estimated_duration_secs: u64,
    pub resource_requirements: StringTable<u32>,
}

/// The texts of a list of strings.
pub open spec fn strings_view(v: Seq<String>) -> Seq<Seq<char>> {
    v.map_values(|s: String| s@)
}

/// The first position at or after `from` of a block with identifier `id`.
pub open spec fn find_block(blocks: Seq<BlockOutline>, id: Seq<char>, from: int) -> Option<int>
    decreases blocks.len() - from,
{
    if from < 0 || from >= blocks.len() {
        None
    } else if blocks[from].id@ == id {
        Some(from)
    } else {
        find_block(blocks, id, from + 1)
    }
}

/// The blocks a block leads to, in the order the walk follows them.
pub open spec fn successors(shape: BlockShape) -> Seq<Seq<char>> {
    match shape {
        BlockShape::Conditional { true_block, false_block } => seq![true_block@, false_block@],
        BlockShape::ParallelExecution { next_block, .. } => seq![next_block@],
        BlockShape::AgentInteraction { next_block } => seq![next_block@],
        BlockShape::LLMProcessing { next_block } => seq![next_block@],
        BlockShape::TaskExecution { next_block } => seq![next_block@],
        BlockShape::Step { next_block } => seq![next_block@],
        _ => Seq::empty(),
    }
}

/// How many blocks have an identifier outside `visited`.
pub open spec fn unvisited_count(blocks: Seq<BlockOutline>, visited: Set<Seq<char>>) -> nat
    decreases blocks.len(),
{
    if blocks.len() == 0 {
        0
    } else {
        unvisited_count(blocks.drop_last(), visited)
            + if visited.contains(blocks.last().id@) { 0nat } else { 1nat }
    }
}

/// Marking `id` visited never raises the count of unvisited blocks, lowers it
/// when an unvisited block has that identifier, and keeps it when none has.
pub proof fn lemma_unvisited_insert(blocks: Seq<BlockOutline>, visited: Set<Seq<char>>, id: Seq<char>)
    ensures
        unvisited_count(blocks, visited.insert(id)) <= unvisited_count(blocks, visited),
        (!visited.contains(id) && exists|i: int| 0 <= i < blocks.len() && #[trigger] blocks[i].id@ == id)
            ==> unvisited_count(blocks, visited.insert(id)) < unvisited_count(blocks, visited),
        (forall|i: int| 0 <= i < blocks.len() ==> #[trigger] blocks[i].id@ != id)
            ==> unvisited_count(blocks, visited.insert(id)) == unvisited_count(blocks, visited),
    decreases blocks.len(),
{
    if blocks.len() > 0 {
        let init = blocks.drop_last();
        lemma_unvisited_insert(init, visited, id);
        if !visited.contains(id) && exists|i: int| 0 <= i < blocks.len() && #[trigger] blocks[i].id@ == id {
            let i = choose|i: int| 0 <= i < blocks.len() && #[trigger] blocks[i].id@ == id;
            if i < blocks.len() - 1 {
                assert(init[i].id@ == id);
            }
        }
        if forall|i: int| 0 <= i < blocks.len() ==> #[trigger] blocks[i].id@ != id {
            assert forall|i: int| 0 <= i < init.len() implies #[trigger] init[i].id@ != id by {
                assert(init[i] == blocks[i]);
            }
            assert(blocks[blocks.len() - 1].id@ != id);
        }
    }
}

/// A found block has the identifier sought, and none before it from `from` does;
/// when none is found, no block from `from` on has it.
pub proof fn lemma_find_block(blocks: Seq<BlockOutline>, id: Seq<char>, from: int)
    requires
        0 <= from,
    ensures
        match find_block(blocks, id, from) {
            Some(i) => from <= i < blocks.len() && blocks[i].id@ == id
                && forall|j: int| from <= j < i ==> #[trigger] blocks[j].id@ != id,
            None => forall|j: int| from <= j < blocks.len() ==> #[trigger] blocks[j].id@ != id,
        },
    decreases blocks.len() - from,
{
    if from < blocks.len() && blocks[from].id@ != id {
        lemma_find_block(blocks, id, from + 1);
    }
}

/// Whether a block runs branches in parallel.
pub open spec fn is_parallel(shape: BlockShape) -> bool {
    shape is ParallelExecution
}

/// The depth-first walk from the top of `stack` (its last element): each
/// identifier not yet visited is recorded, and when a block has it, the blocks
/// it leads to are walked next, in order. The walk yields the identifiers in
/// the order met and the positions of the parallel blocks met.
pub open spec fn explore(blocks: Seq<BlockOutline>, stack: Seq<Seq<char>>, visited: Set<Seq<char>>) -> (Seq<Seq<char>>, Seq<int>)
    decreases unvisited_count(blocks, visited), stack.len(),
{
    if stack.len() == 0 {
        (Seq::empty(), Seq::empty())
    } else {
        let id = stack.last();
        let rest = stack.drop_last();
        if visited.contains(id) {
            explore(blocks, rest, visited)
        } else {
            proof {
                lemma_unvisited_insert(blocks, visited, id);
                lemma_find_block(blocks, id, 0);
            }
            match find_block(blocks, id, 0) {
                None => {
                    let sub = explore(blocks, rest, visited.insert(id));
                    (seq![id] + sub.0, sub.1)
                },
                Some(i) => {
                    let sub = explore(blocks, rest + successors(blocks[i].shape).reverse(), visited.insert(id));
                    (seq![id] + sub.0, if is_parallel(blocks[i].shape) { seq![i] + sub.1 } else { sub.1 })
                },
            }
        }
    }
}

/// The positions of the parallel blocks from position `i` on.
pub open spec fn parallel_positions(blocks: Seq<BlockOutline>, i: int) -> Seq<int>
    decreases blocks.len() - i,
{
    if i < 0 || i >= blocks.len() {
        Seq::empty()
    } else if is_parallel(blocks[i].shape) {
        seq![i] + parallel_positions(blocks, i + 1)
    } else {
        parallel_positions(blocks, i + 1)
    }
}

/// The group of a parallel block: named after the block, its branches, merged by waiting for all.
pub open spec fn group_view(b: BlockOutline) -> (Seq<char>, Seq<Seq<char>>, Seq<char>) {
    (
        "parallel_"@ + b.id@,
        match b.shape {
            BlockShape::ParallelExecution { branch_blocks, .. } => strings_view(branch_blocks@),
            _ => Seq::empty(),
        },
        "wait_all"@,
    )
}

/// The id, branches and merge strategy of a group.
pub open spec fn parallel_group_view(g: ParallelGroup) -> (Seq<char>, Seq<Seq<char>>, Seq<char>) {
    (g.group_id@, strings_view(g.block_ids@), g.merge_strategy@)
}

/// How many blocks from position `i` on satisfy `pred`.
pub open spec fn count_from(blocks: Seq<BlockOutline>, i: int, pred: spec_fn(BlockShape) -> bool) -> nat
    decreases blocks.len() - i,
{
    if i < 0 || i >= blocks.len() {
        0
    } else {
        count_from(blocks, i + 1, pred) + if pred(blocks[i].shape) { 1nat } else { 0nat }
    }
}

/// The number of agent-interaction blocks.
pub open spec fn agent_blocks(blocks: Seq<BlockOutline>) -> nat {
    count_from(blocks, 0, |s: BlockShape| s is AgentInteraction)
}

/// The number of language-model blocks.
pub open spec fn llm_blocks(blocks: Seq<BlockOutline>) -> nat {
    count_from(blocks, 0, |s: BlockShape| s is LLMProcessing)
}

/// The number of task blocks.
pub open spec fn task_blocks(blocks: Seq<BlockOutline>) -> nat {
    count_from(blocks, 0, |s: BlockShape| s is TaskExecution)
}

proof fn lemma_count_bound(blocks: Seq<BlockOutline>, i: int, pred: spec_fn(BlockShape) -> bool)
    requires
        0 <= i,
    ensures
        count_from(blocks, i, pred) <= if i <= blocks.len() { blocks.len() - i } else { 0 },
    decreases blocks.len() - i,
{
    if i < blocks.len() {
        lemma_count_bound(blocks, i + 1, pred);
    }
}

fn position_of(blocks: &Vec<BlockOutline>, id: &str) -> (r: Option<usize>)
    ensures
        r matches Some(i) ==> find_block(blocks@, id@, 0) == Some(i as int),
        r is None ==> find_block(blocks@, id@, 0) is None,
{
    let mut i: usize = 0;
    while i < blocks.len()
        invariant
            i <= blocks@.len(),
            find_block(blocks@, id@, 0) == find_block(blocks@, id@, i as int),
        decreases blocks.len() - i,
    {
        if str_eq(blocks[i].id.as_str(), id) {
            return Some(i);
        }
        i = i + 1;
    }
    None
}

fn visited_contains(visited: &Vec<String>, id: &String) -> (b: bool)
    ensures
        b == strings_view(visited@).contains(id@),
{
    let mut i: usize = 0;
    while i < visited.len()
        invariant
            i <= visited@.len(),
            forall|m: int| 0 <= m < i ==> #[trigger] visited@[m]@ != id@,
        decreases visited.len() - i,
    {
        if str_eq(visited[i].as_str(), id.as_str()) {
            assert(strings_view(visited@)[i as int] == id@);
            return true;
        }
        i = i + 1;
    }
    proof {
        if strings_view(visited@).contains(id@) {
            let k = choose|k: int| 0 <= k < strings_view(visited@).len() && strings_view(visited@)[k] == id@;
            assert(visited@[k]@ == id@);
        }
    }
    false
}

fn push_successors(stack: &mut Vec<String>, shape: &BlockShape)
    ensures
        strings_view(final(stack)@) == strings_view(old(stack)@) + successors(*shape).reverse(),
{
    let ghost before = strings_view(stack@);
    match shape {
        BlockShape::Conditional { true_block, false_block } => {
            stack.push(false_block.clone());
            stack.push(true_block.clone());
            assert(strings_view(stack@) =~= before + successors(*shape).reverse());
        },
        BlockShape::ParallelExecution { next_block, .. } => {
            stack.push(next_block.clone());
            assert(strings_view(stack@) =~= before + successors(*shape).reverse());
        },
        BlockShape::AgentInteraction { next_block } => {
            stack.push(next_block.clone());
            assert(strings_view(stack@) =~= before + successors(*shape).reverse());
        },
        BlockShape::LLMProcessing { next_block } => {
            stack.push(next_block.clone());
            assert(strings_view(stack@) =~= before + successors(*shape).reverse());
        },
        BlockShape::TaskExecution { next_block } => {
            stack.push(next_block.clone());
            assert(strings_view(stack@) =~= before + successors(*shape).reverse());
        },
        BlockShape::Step { next_block } => {
            stack.push(next_block.clone());
            assert(strings_view(stack@) =~= before + successors(*shape).reverse());
        },
        _ => {
            assert(strings_view(stack@) =~= before + successors(*shape).reverse());
        },
    }
}

/// Walks the flow depth-first from its start block, as [`explore`] states.
pub fn build_execution_order(flow: &FlowOutline) -> (r: (Vec<String>, Vec<usize>))
    ensures
        strings_view(r.0@) == explore(flow.blocks@, seq![flow.start_block_id@], Set::empty()).0,
        r.1@.map_values(|i: usize| i as int) == explore(flow.blocks@, seq![flow.start_block_id@], Set::empty()).1,
{
    let ghost blocks = flow.blocks@;
    let ghost total = explore(blocks, seq![flow.start_block_id@], Set::empty());
    let mut order: Vec<String> = Vec::new();
    let mut groups: Vec<usize> = Vec::new();
    let mut stack: Vec<String> = Vec::new();
    stack.push(flow.start_block_id.clone());
    let mut visited: Vec<String> = Vec::new();
    let ghost mut seen: Set<Seq<char>> = Set::empty();
    assert(strings_view(stack@) =~= seq![flow.start_block_id@]);
    while stack.len() > 0
        invariant
            blocks == flow.blocks@,
            total == explore(blocks, seq![flow.start_block_id@], Set::empty()),
            forall|s: Seq<char>| seen.contains(s) <==> strings_view(visited@).contains(s),
            total.0 == strings_view(order@) + explore(blocks, strings_view(stack@), seen).0,
            total.1 == groups@.map_values(|i: usize| i as int) + explore(blocks, strings_view(stack@), seen).1,
        decreases unvisited_count(blocks, seen), stack.len(),
    {
        let ghost sv = strings_view(stack@);
        let id = stack.pop().unwrap();
        assert(sv.last() == id@ && sv.drop_last() =~= strings_view(stack@));
        let ghost seen0 = seen;
        let ghost rest = strings_view(stack@);
        if visited_contains(&visited, &id) {
            assert(seen0.contains(id@));
            assert(explore(blocks, sv, seen0) == explore(blocks, rest, seen0));
            continue;
        }
        assert(!seen0.contains(id@));
        proof {
            lemma_unvisited_insert(blocks, seen, id@);
            lemma_find_block(blocks, id@, 0);
        }
        let ghost old_order = strings_view(order@);
        let ghost old_groups = groups@.map_values(|i: usize| i as int);
        let ghost old_visited = strings_view(visited@);
        visited.push(id.clone());
        proof {
            assert(strings_view(visited@) =~= old_visited.push(id@));
            assert forall|s: Seq<char>| seen.insert(id@).contains(s) <==> strings_view(visited@).contains(s) by {
                if s == id@ {
                    assert(strings_view(visited@)[old_visited.len() as int] == s);
                }
                if strings_view(visited@).contains(s) && s != id@ {
                    let k = choose|k: int| 0 <= k < strings_view(visited@).len() && strings_view(visited@)[k] == s;
                    assert(old_visited[k] == s);
                    assert(old_visited.contains(s));
                }
                if seen.contains(s) {
                    assert(old_visited.contains(s));
                    let k = choose|k: int| 0 <= k < old_visited.len() && old_visited[k] == s;
                    assert(strings_view(visited@)[k] == s);
                }
            }
            seen = seen.insert(id@);
        }
        match position_of(&flow.blocks, id.as_str()) {
            None => {
                assert(explore(blocks, sv, seen0) == (seq![id@] + explore(blocks, rest, seen).0, explore(blocks, rest, seen).1));
                order.push(id);
                assert(strings_view(order@) =~= old_order + seq![order@.last()@]);
                assert(total.0 =~= strings_view(order@) + explore(blocks, strings_view(stack@), seen).0);
            },
            Some(i) => {
                let block = &flow.blocks[i];
                let ghost sub = explore(blocks, rest + successors(blocks[i as int].shape).reverse(), seen);
                assert(find_block(blocks, id@, 0) == Some(i as int));
                assert(sv.last() == id@);
                assert(sv.drop_last() == rest);
                assert(seen == seen0.insert(id@));
                assert(sv.len() > 0);
                assert(explore(blocks, sv, seen0) == (seq![id@] + sub.0,
                    if is_parallel(blocks[i as int].shape) { seq![i as int] + sub.1 } else { sub.1 }));
                push_successors(&mut stack, &block.shape);
                order.push(id);
                assert(strings_view(order@) =~= old_order + seq![order@.last()@]);
                match &block.shape {
                    BlockShape::ParallelExecution { .. } => {
                        groups.push(i);
                        assert(groups@.map_values(|i: usize| i as int) =~= old_groups + seq![i as int]);
                    },
                    _ => {},
                }
            },
        }
    }
    assert(strings_view(order@) =~= total.0);
    assert(groups@.map_values(|i: usize| i as int) =~= total.1);
    (order, groups)
}

fn copy_strings(v: &Vec<String>) -> (r: Vec<String>)
    ensures
        strings_view(r@) == strings_view(v@),
{
    let mut r: Vec<String> = Vec::new();
    let mut i: usize = 0;
    while i < v.len()
        invariant
            i <= v@.len(),
            strings_view(r@) == strings_view(v@).take(i as int),
        decreases v.len() - i,
    {
        let c = v[i].clone();
        assert(c@ == v@[i as int]@);
        let ghost before = strings_view(r@);
        r.push(c);
        assert(strings_view(r@) =~= before.push(c@));
        i = i + 1;
        assert(strings_view(r@) =~= strings_view(v@).take(i as int));
    }
    assert(strings_view(v@).take(v@.len() as int) =~= strings_view(v@));
    r
}

fn make_group(b: &BlockOutline) -> (g: ParallelGroup)
    ensures
        parallel_group_view(g) == group_view(*b),
{
    let block_ids = match &b.shape {
        BlockShape::ParallelExecution { branch_blocks, .. } => copy_strings(branch_blocks),
        _ => {
            let v: Vec<String> = Vec::new();
            assert(strings_view(v@) =~= Seq::<Seq<char>>::empty());
            v
        },
    };
    ParallelGroup {
        group_id: concat_str("parallel_", b.id.as_str()),
        block_ids,
        merge_strategy: String::from_str("wait_all"),
    }
}

/// The groups of a plan: those of the parallel blocks the walk met, in the order
/// met, then those of every parallel block of the flow, in order.
pub open spec fn planned_groups(blocks: Seq<BlockOutline>, walked: Seq<int>) -> Seq<(Seq<char>, Seq<Seq<char>>, Seq<char>)> {
    (walked + parallel_positions(blocks, 0)).map_values(|i: int| group_view(blocks[i]))
}

/// The requirement counts of a plan, by resource name.
pub open spec fn planned_requirements(blocks: Seq<BlockOutline>) -> Map<Seq<char>, u32> {
    map![
        "agents"@ => agent_blocks(blocks) as u32,
        "llms"@ => llm_blocks(blocks) as u32,
        "tasks"@ => task_blocks(blocks) as u32,
    ]
}

/// Plans a flow: the depth-first order from its start block, its parallel groups
/// (those met on the walk, then those of every parallel block), thirty seconds per
/// block plus sixty as the estimated duration, and the numbers of agent,
/// language-model and task blocks as its requirements.
pub fn plan_execution(flow: &FlowOutline) -> (plan: ExecutionPlan)
    requires
        flow.blocks@.len() <= u32::MAX,
    ensures
        plan.flow_id@ == flow.id@,
        strings_view(plan.execution_order@) == explore(flow.blocks@, seq![flow.start_block_id@], Set::empty()).0,
        plan.parallel_groups@.map_values(|g: ParallelGroup| parallel_group_view(g)) == planned_groups(
            flow.blocks@, explore(flow.blocks@, seq![flow.start_block_id@], Set::empty()).1),
        plan.estimated_duration_secs == flow.blocks@.len() * 30 + 60,
        plan.resource_requirements.wf(),
        plan.resource_requirements.map() == planned_requirements(flow.blocks@),
{
    let ghost blocks = flow.blocks@;
    let (order, walked) = build_execution_order(flow);
    let ghost walked_view = walked@.map_values(|i: usize| i as int);
    proof {
        lemma_explore_positions(blocks, seq![flow.start_block_id@], Set::empty());
    }
    let mut groups: Vec<ParallelGroup> = Vec::new();
    let mut k: usize = 0;
    while k < walked.len()
        invariant
            k <= walked@.len(),
            blocks == flow.blocks@,
            walked_view == walked@.map_values(|i: usize| i as int),
            forall|m: int| 0 <= m < walked_view.len() ==> 0 <= #[trigger] walked_view[m] < blocks.len(),
            groups@.map_values(|g: ParallelGroup| parallel_group_view(g))
                == walked_view.take(k as int).map_values(|i: int| group_view(blocks[i])),
        decreases walked.len() - k,
    {
        assert(walked_view[k as int] == walked@[k as int] as int);
        let g = make_group(&flow.blocks[walked[k]]);
        let ghost before = groups@.map_values(|g: ParallelGroup| parallel_group_view(g));
        let ghost gv = parallel_group_view(g);
        assert(gv == group_view(blocks[walked_view[k as int]]));
        groups.push(g);
        assert(groups@.map_values(|g: ParallelGroup| parallel_group_view(g)) =~= before.push(gv));
        assert(walked_view.take(k + 1) =~= walked_view.take(k as int).push(walked_view[k as int]));
        k = k + 1;
        assert(groups@.map_values(|g: ParallelGroup| parallel_group_view(g))
            =~= walked_view.take(k as int).map_values(|i: int| group_view(blocks[i])));
    }
    assert(walked_view.take(walked@.len() as int) =~= walked_view);
    let mut agents: u32 = 0;
    let mut llms: u32 = 0;
    let mut tasks: u32 = 0;
    let n = flow.blocks.len();
    let mut j: usize = n;
    let ghost tail_groups = groups@.map_values(|g: ParallelGroup| parallel_group_view(g));
    let mut scanned: Vec<ParallelGroup> = Vec::new();
    while j > 0
        invariant
            j <= n,
            n == blocks.len(),
            blocks == flow.blocks@,
            n <= u32::MAX,
            agents == count_from(blocks, j as int, |s: BlockShape| s is AgentInteraction),
            llms == count_from(blocks, j as int, |s: BlockShape| s is LLMProcessing),
            tasks == count_from(blocks, j as int, |s: BlockShape| s is TaskExecution),
            scanned@.map_values(|g: ParallelGroup| parallel_group_view(g))
                == parallel_positions(blocks, j as int).map_values(|i: int| group_view(blocks[i])),
        decreases j,
    {
        j = j - 1;
        proof {
            lemma_count_bound(blocks, j + 1, |s: BlockShape| s is AgentInteraction);
            lemma_count_bound(blocks, j + 1, |s: BlockShape| s is LLMProcessing);
            lemma_count_bound(blocks, j + 1, |s: BlockShape| s is TaskExecution);
        }
        let ghost before = scanned@.map_values(|g: ParallelGroup| parallel_group_view(g));
        match &flow.blocks[j].shape {
            BlockShape::AgentInteraction { .. } => { agents = agents + 1; },
            BlockShape::LLMProcessing { .. } => { llms = llms + 1; },
            BlockShape::TaskExecution { .. } => { tasks = tasks + 1; },
            BlockShape::ParallelExecution { .. } => {
                let g = make_group(&flow.blocks[j]);
                scanned.insert(0, g);
                assert(scanned@.map_values(|g: ParallelGroup| parallel_group_view(g))
                    =~= seq![group_view(blocks[j as int])] + before);
            },
            _ => {},
        }
        assert(scanned@.map_values(|g: ParallelGroup| parallel_group_view(g))
            =~= parallel_positions(blocks, j as int).map_values(|i: int| group_view(blocks[i])));
    }
    let ghost first = groups@.map_values(|g: ParallelGroup| parallel_group_view(g));
    let ghost second = scanned@.map_values(|g: ParallelGroup| parallel_group_view(g));
    groups.append(&mut scanned);
    assert(groups@.map_values(|g: ParallelGroup| parallel_group_view(g)) =~= first + second);
    assert(planned_groups(blocks, walked_view) =~= first + second);
    let mut requirements: StringTable<u32> = StringTable::new();
    requirements.insert(String::from_str("agents"), agents);
    requirements.insert(String::from_str("llms"), llms);
    requirements.insert(String::from_str("tasks"), tasks);
    assert(requirements.map() =~= planned_requirements(blocks));
    ExecutionPlan {
        flow_id: flow.id.clone(),
        execution_order: order,
        parallel_groups: groups,
        estimated_duration_secs: (n as u64) * 30 + 60,
        resource_requirements: requirements,
    }
}

/// Every position the walk yields is that of a block.
pub proof fn lemma_explore_positions(blocks: Seq<BlockOutline>, stack: Seq<Seq<char>>, visited: Set<Seq<char>>)
    ensures
        forall|m: int| 0 <= m < explore(blocks, stack, visited).1.len()
            ==> 0 <= #[trigger] explore(blocks, stack, visited).1[m] < blocks.len(),
    decreases unvisited_count(blocks, visited), stack.len(),
{
    if stack.len() > 0 {
        let id = stack.last();
        let rest = stack.drop_last();
        if visited.contains(id) {
            lemma_explore_positions(blocks, rest, visited);
            let whole = explore(blocks, stack, visited).1;
            let sub = explore(blocks, rest, visited).1;
            assert(whole == sub);
            assert forall|m: int| 0 <= m < whole.len() implies 0 <= #[trigger] whole[m] < blocks.len() by {
                assert(whole[m] == sub[m]);
            }
        } else {
            lemma_unvisited_insert(blocks, visited, id);
            lemma_find_block(blocks, id, 0);
            match find_block(blocks, id, 0) {
                None => {
                    lemma_explore_positions(blocks, rest, visited.insert(id));
                    let whole = explore(blocks, stack, visited).1;
                    let sub = explore(blocks, rest, visited.insert(id)).1;
                    assert(whole == sub);
                    assert forall|m: int| 0 <= m < whole.len() implies 0 <= #[trigger] whole[m] < blocks.len() by {
                        assert(whole[m] == sub[m]);
                    }
                },
                Some(i) => {
                    let sub = explore(blocks, rest + successors(blocks[i].shape).reverse(), visited.insert(id));
                    lemma_explore_positions(blocks, rest + successors(blocks[i].shape).reverse(), visited.insert(id));
                    let whole = explore(blocks, stack, visited).1;
                    assert(whole == if is_parallel(blocks[i].shape) { seq![i] + sub.1 } else { sub.1 });
                    assert forall|m: int| 0 <= m < whole.len() implies 0 <= #[trigger] whole[m] < blocks.len() by {
                        if is_parallel(blocks[i].shape) {
                            if m > 0 {
                                assert(whole[m] == sub.1[m - 1]);
                            }
                        } else {
                            assert(whole[m] == sub.1[m]);
                        }
                    }
                },
            }
        }
    }
}

/// The walk records no identifier twice, and none it had already visited.
pub proof fn lemma_explore_fresh(blocks: Seq<BlockOutline>, stack: Seq<Seq<char>>, visited: Set<Seq<char>>)
    ensures
        explore(blocks, stack, visited).0.no_duplicates(),
        forall|m: int| 0 <= m < explore(blocks, stack, visited).0.len()
            ==> !visited.contains(#[trigger] explore(blocks, stack, visited).0[m]),
    decreases unvisited_count(blocks, visited), stack.len(),
{
    if stack.len() > 0 {
        let id = stack.last();
        let rest = stack.drop_last();
        let whole = explore(blocks, stack, visited).0;
        if visited.contains(id) {
            lemma_explore_fresh(blocks, rest, visited);
            assert(whole == explore(blocks, rest, visited).0);
        } else {
            lemma_unvisited_insert(blocks, visited, id);
            lemma_find_block(blocks, id, 0);
            let next_stack = match find_block(blocks, id, 0) {
                None => rest,
                Some(i) => rest + successors(blocks[i].shape).reverse(),
            };
            let sub = explore(blocks, next_stack, visited.insert(id)).0;
            lemma_explore_fresh(blocks, next_stack, visited.insert(id));
            assert(whole == seq![id] + sub);
            assert forall|m: int| 0 <= m < whole.len() implies !visited.contains(#[trigger] whole[m]) by {
                if m > 0 {
                    assert(whole[m] == sub[m - 1]);
                }
            }
            assert forall|a: int, b: int| 0 <= a < whole.len() && 0 <= b < whole.len() && a != b implies whole[a] != whole[b] by {
                if a > 0 && b > 0 {
                    assert(whole[a] == sub[a - 1]);
                    assert(whole[b] == sub[b - 1]);
                } else if a == 0 {
                    assert(whole[b] == sub[b - 1]);
                    assert(!visited.insert(id).contains(sub[b - 1]));
                } else {
                    assert(whole[a] == sub[a - 1]);
                    assert(!visited.insert(id).contains(sub[a - 1]));
                }
            }
        }
    }
}

/// A plan's execution order starts with the flow's start block and lists no block twice.
pub proof fn lemma_plan_order(blocks: Seq<BlockOutline>, start: Seq<char>)
    ensures
        explore(blocks, seq![start], Set::empty()).0.len() > 0,
        explore(blocks, seq![start], Set::empty()).0[0] == start,
        explore(blocks, seq![start], Set::empty()).0.no_duplicates(),
{
    lemma_explore_fresh(blocks, seq![start], Set::empty());
    let stack = seq![start];
    let visited = Set::<Seq<char>>::empty();
    lemma_unvisited_insert(blocks, visited, start);
    lemma_find_block(blocks, start, 0);
    let rest = stack.drop_last();
    assert(stack.last() == start);
    let next_stack = match find_block(blocks, start, 0) {
        None => rest,
        Some(i) => rest + successors(blocks[i].shape).reverse(),
    };
    assert(explore(blocks, stack, visited).0 == seq![start] + explore(blocks, next_stack, visited.insert(start)).0);
}

} // verus!
