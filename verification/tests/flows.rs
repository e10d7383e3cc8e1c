use sleet::orchestration::errors::OrchestrationError;
use sleet::orchestration::flow::{validate_flow_definition, BlockOutline, BlockShape, FlowOutline, ResourceLimits};
use sleet::orchestration::planning::plan_execution;
use sleet::orchestration::stepping::{
    boolean_literal, break_target, continue_target, equality_matches, foreach_step, interaction_options_for,
    loop_array_key, loop_index_key, next_loop_index, parallel_timeout, parse_condition, selection_criteria_for,
    AgentSelector, ConditionTest, LoopStep,
};

fn block(id: &str, shape: BlockShape) -> BlockOutline {
    BlockOutline { id: id.to_string(), shape }
}

fn next(n: &str) -> BlockShape {
    BlockShape::Step { next_block: n.to_string() }
}

fn flow(start: &str, blocks: Vec<BlockOutline>) -> FlowOutline {
    FlowOutline {
        id: "flow".to_string(),
        start_block_id: start.to_string(),
        blocks,
        agent_requirements: 0,
        llm_requirements: 0,
        task_requirements: 0,
    }
}

fn limits() -> ResourceLimits {
    ResourceLimits {
        max_agents_per_session: 2,
        max_llm_instances_per_session: 1,
        max_tasks_per_session: 3,
        max_memory_mb_per_session: 1024,
        max_cpu_cores_per_session: 4,
    }
}

fn validation_message(r: Result<(), OrchestrationError>) -> String {
    match r {
        Err(OrchestrationError::ValidationError(m)) => m,
        other => panic!("{other:?}"),
    }
}

fn branching_flow() -> FlowOutline {
    flow(
        "start",
        vec![
            block("start", BlockShape::Conditional { true_block: "left".to_string(), false_block: "right".to_string() }),
            block("left", BlockShape::AgentInteraction { next_block: "join".to_string() }),
            block("right", BlockShape::ParallelExecution {
                branch_blocks: vec!["p1".to_string(), "p2".to_string()],
                next_block: "join".to_string(),
            }),
            block("join", BlockShape::LLMProcessing { next_block: "end".to_string() }),
            block("end", BlockShape::Other),
            block("orphan", BlockShape::TaskExecution { next_block: String::new() }),
        ],
    )
}

#[test]
fn a_well_formed_flow_validates() {
    assert!(validate_flow_definition(&branching_flow(), &limits()).is_ok());
}

#[test]
fn flow_validation_errors() {
    assert_eq!(
        validation_message(validate_flow_definition(&flow("a", vec![]), &limits())),
        "Flow definition must contain at least one block"
    );
    assert_eq!(
        validation_message(validate_flow_definition(&flow("zz", vec![block("a", BlockShape::Other)]), &limits())),
        "Start block 'zz' not found in flow definition"
    );
    let f = flow("a", vec![block("a", BlockShape::Conditional { true_block: "a".to_string(), false_block: "b".to_string() })]);
    assert_eq!(
        validation_message(validate_flow_definition(&f, &limits())),
        "Block 'a' references non-existent false_block 'b'"
    );
    let f = flow("a", vec![block("a", next("missing"))]);
    assert_eq!(
        validation_message(validate_flow_definition(&f, &limits())),
        "Block 'a' references non-existent next_block 'missing'"
    );
    let mut f = flow("a", vec![block("a", BlockShape::Other)]);
    f.llm_requirements = 2;
    assert_eq!(
        validation_message(validate_flow_definition(&f, &limits())),
        "Flow requires 2 LLM instances, but limit is 1"
    );
}

#[test]
fn plan_walks_depth_first_from_the_start() {
    let plan = plan_execution(&branching_flow());
    assert_eq!(plan.flow_id, "flow");
    assert_eq!(plan.execution_order, vec!["start", "left", "join", "end", "right"]);
    assert_eq!(plan.estimated_duration_secs, 6 * 30 + 60);
    let groups: Vec<(String, Vec<String>, String)> = plan
        .parallel_groups
        .iter()
        .map(|g| (g.group_id.clone(), g.block_ids.clone(), g.merge_strategy.clone()))
        .collect();
    let expected = ("parallel_right".to_string(), vec!["p1".to_string(), "p2".to_string()], "wait_all".to_string());
    assert_eq!(groups, vec![expected.clone(), expected]);
    assert_eq!(plan.resource_requirements.get("agents"), Some(&1));
    assert_eq!(plan.resource_requirements.get("llms"), Some(&1));
    assert_eq!(plan.resource_requirements.get("tasks"), Some(&1));
}

#[test]
fn plan_records_unknown_targets_once() {
    let f = flow("a", vec![block("a", next("ghost")), block("b", next("ghost"))]);
    let plan = plan_execution(&f);
    assert_eq!(plan.execution_order, vec!["a", "ghost"]);
    let cyclic = flow("a", vec![block("a", next("b")), block("b", next("a"))]);
    assert_eq!(plan_execution(&cyclic).execution_order, vec!["a", "b"]);
}

#[test]
fn selector_criteria() {
    let c = selection_criteria_for(&AgentSelector::ById("agent-7".to_string()));
    assert_eq!(c.preferred_tags, vec!["id:agent-7".to_string()]);
    assert!(c.required_capabilities.is_empty());
    assert!(!c.exclude_busy);
    assert_eq!(c.max_concurrent_tasks, None);
    let c = selection_criteria_for(&AgentSelector::ByCapability(vec!["rust".to_string()]));
    assert_eq!(c.required_capabilities, vec!["rust".to_string()]);
    assert!(c.exclude_busy);
    assert_eq!(c.max_concurrent_tasks, Some(10));
    let c = selection_criteria_for(&AgentSelector::BestAvailable);
    assert!(c.required_capabilities.is_empty() && c.preferred_tags.is_empty());
    let o = interaction_options_for(Some(12), None);
    assert_eq!((o.timeout_seconds, o.retry_attempts), (Some(12), 3));
    assert_eq!(interaction_options_for(None, Some(5)).retry_attempts, 5);
}

#[test]
fn loop_control() {
    assert_eq!(loop_index_key("items"), "__loop_items_index");
    assert_eq!(loop_array_key("items"), "__loop_items_array");
    assert_eq!(foreach_step(None, Some(3), false), LoopStep::Enter { index: 0, record_snapshot: true });
    assert_eq!(foreach_step(Some(2), Some(3), true), LoopStep::Enter { index: 2, record_snapshot: false });
    assert_eq!(foreach_step(Some(3), Some(3), true), LoopStep::Leave);
    assert_eq!(foreach_step(Some(-1), Some(3), true), LoopStep::Leave);
    assert_eq!(foreach_step(Some(0), None, false), LoopStep::Leave);
    assert_eq!(next_loop_index(None), 1);
    assert_eq!(next_loop_index(Some(4)), 5);
    let blocks = vec![
        block("loop", BlockShape::ForEach {
            loop_id: "items".to_string(),
            loop_body_block_id: "body".to_string(),
            exit_block_id: "after".to_string(),
        }),
        block("body", BlockShape::Other),
    ];
    assert_eq!(continue_target(&blocks, "items").unwrap(), "loop");
    assert_eq!(break_target(&blocks, "items").unwrap(), "after");
    match continue_target(&blocks, "other") {
        Err(OrchestrationError::ValidationError(m)) => assert_eq!(m, "Continue references unknown loop_id 'other'"),
        r => panic!("{r:?}"),
    }
    match break_target(&blocks, "other") {
        Err(OrchestrationError::ValidationError(m)) => assert_eq!(m, "Break references unknown loop_id 'other'"),
        r => panic!("{r:?}"),
    }
}

#[test]
fn conditions() {
    match parse_condition(" choice == \"Final Report\" ") {
        ConditionTest::Equals { var_name, expected } => {
            assert_eq!(var_name, "choice");
            assert_eq!(expected, "Final Report");
        },
        other => panic!("{other:?}"),
    }
    match parse_condition("approved") {
        ConditionTest::Flag { var_name } => assert_eq!(var_name, "approved"),
        other => panic!("{other:?}"),
    }
    assert!(matches!(parse_condition("a == b == c"), ConditionTest::Unsatisfiable));
    assert!(equality_matches("Option 1 please", "Final Report"));
    assert!(equality_matches("REFINE it", "refinement"));
    assert!(equality_matches("start again", "Start Over"));
    assert!(!equality_matches("stop", "Start Over"));
    assert!(equality_matches("Yes", "yes"));
    assert!(!equality_matches("yes!", "yes"));
    assert_eq!(boolean_literal("true"), Some(true));
    assert_eq!(boolean_literal("false"), Some(false));
    assert_eq!(boolean_literal("True"), None);
    assert_eq!(parallel_timeout(None), 300);
    assert_eq!(parallel_timeout(Some(5)), 5);
}
