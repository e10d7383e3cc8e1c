use sleet::keyed::StringTable;
use sleet::orchestration::definitions::MergeStrategy;
use sleet::orchestration::errors::OrchestrationError;
use sleet::orchestration::execution::{BlockProgram, LoopArray, LoopSource, StepAction};
use sleet::orchestration::flow::{BlockOutline, BlockShape, FlowOutline};
use sleet::orchestration::manager::AllocatedResources;
use sleet::orchestration::planning::ExecutionPlan;
use sleet::orchestration::session::{ExecutionContext, OrchestrationSession};
use sleet::orchestration::stepping::AgentSelector;
use sleet::runtime::value::JsonDatum;

fn datum(text: &str, truthy: bool) -> JsonDatum {
    JsonDatum { text: text.to_string(), identity: text.to_string(), truthy }
}

fn looping_session() -> OrchestrationSession {
    let flow = FlowOutline {
        id: "flow".to_string(),
        start_block_id: "loop".to_string(),
        blocks: vec![
            BlockOutline {
                id: "loop".to_string(),
                shape: BlockShape::ForEach {
                    loop_id: "items".to_string(),
                    loop_body_block_id: "body".to_string(),
                    exit_block_id: "after".to_string(),
                },
            },
            BlockOutline { id: "body".to_string(), shape: BlockShape::Other },
            BlockOutline { id: "after".to_string(), shape: BlockShape::Other },
        ],
        agent_requirements: 0,
        llm_requirements: 0,
        task_requirements: 0,
    };
    let resources = AllocatedResources {
        session_id: "s1".to_string(),
        agents: Vec::new(),
        llm_instances: Vec::new(),
        tasks: Vec::new(),
        workflows: Vec::new(),
    };
    let plan = ExecutionPlan {
        flow_id: "flow".to_string(),
        execution_order: vec!["loop".to_string()],
        parallel_groups: Vec::new(),
        estimated_duration_secs: 0,
        resource_requirements: StringTable::new(),
    };
    let ctx = ExecutionContext::new("s1".to_string(), Some(datum("{\"list\":[1,2]}", true)));
    OrchestrationSession::new("s1".to_string(), flow, ctx, resources, plan, 100)
}

fn variable(s: &OrchestrationSession, key: &str) -> Option<String> {
    s.get_execution_context().get_variable(key).map(|d| d.text.clone())
}

fn current(s: &OrchestrationSession) -> Option<String> {
    s.get_current_block_id()
}

fn for_each() -> BlockProgram {
    BlockProgram::ForEach {
        loop_id: "items".to_string(),
        array_path: "list".to_string(),
        iterator_var: "item".to_string(),
        loop_body_block_id: "body".to_string(),
        exit_block_id: "after".to_string(),
    }
}

fn two_items() -> LoopArray {
    LoopArray { document: datum("[\"a\",\"b\"]", true), items: vec![datum("\"a\"", true), datum("\"b\"", true)] }
}

fn enter(s: &mut OrchestrationSession, array: Option<LoopArray>) {
    s.enter_loop("items", "item", "body".to_string(), "after".to_string(), array);
}

#[test]
fn a_loop_reads_its_array_from_the_shared_state_first_time() {
    let mut s = looping_session();
    match s.step(&for_each()).unwrap() {
        StepAction::ResolveLoop { source: LoopSource::SharedState { document, pointer } } => {
            assert_eq!(document.text, "{\"list\":[1,2]}");
            assert_eq!(pointer, "list");
        }
        other => panic!("unexpected action {other:?}"),
    }
    s.execution_context.set_value("list", datum("[3]", true));
    match s.step(&for_each()).unwrap() {
        StepAction::ResolveLoop { source: LoopSource::Variable(d) } => assert_eq!(d.text, "[3]"),
        other => panic!("unexpected action {other:?}"),
    }
}

#[test]
fn a_loop_walks_its_items_and_continue_moves_it_on() {
    let mut s = looping_session();
    enter(&mut s, Some(two_items()));
    assert_eq!(variable(&s, "item"), Some("\"a\"".to_string()));
    assert_eq!(variable(&s, "__loop_items_array"), Some("[\"a\",\"b\"]".to_string()));
    assert_eq!(current(&s), Some("body".to_string()));

    match s.step(&for_each()).unwrap() {
        StepAction::ResolveLoop { source: LoopSource::Recorded(d) } => assert_eq!(d.text, "[\"a\",\"b\"]"),
        other => panic!("unexpected action {other:?}"),
    }

    assert!(matches!(s.step(&BlockProgram::Continue { loop_id: "items".to_string() }), Ok(StepAction::Advanced)));
    assert_eq!(variable(&s, "__loop_items_index"), Some("1".to_string()));
    assert_eq!(current(&s), Some("loop".to_string()));

    enter(&mut s, Some(two_items()));
    assert_eq!(variable(&s, "item"), Some("\"b\"".to_string()));
    assert_eq!(current(&s), Some("body".to_string()));

    assert!(matches!(s.step(&BlockProgram::Continue { loop_id: "items".to_string() }), Ok(StepAction::Advanced)));
    assert_eq!(variable(&s, "__loop_items_index"), Some("2".to_string()));
    enter(&mut s, Some(two_items()));
    assert_eq!(current(&s), Some("after".to_string()));
    assert_eq!(variable(&s, "__loop_items_index"), Some("null".to_string()));
    assert_eq!(variable(&s, "__loop_items_array"), Some("null".to_string()));
}

#[test]
fn a_loop_without_an_array_is_left() {
    let mut s = looping_session();
    enter(&mut s, None);
    assert_eq!(current(&s), Some("after".to_string()));
    assert_eq!(variable(&s, "__loop_items_index"), Some("null".to_string()));
    assert_eq!(variable(&s, "__loop_items_array"), Some("null".to_string()));
    assert_eq!(variable(&s, "item"), None);
}

#[test]
fn break_leaves_the_loop_and_clears_it() {
    let mut s = looping_session();
    enter(&mut s, Some(two_items()));
    assert!(matches!(s.step(&BlockProgram::Break { loop_id: "items".to_string() }), Ok(StepAction::Advanced)));
    assert_eq!(current(&s), Some("after".to_string()));
    assert_eq!(variable(&s, "__loop_items_array"), Some("null".to_string()));
    assert_eq!(variable(&s, "__loop_items_index"), Some("null".to_string()));
}

#[test]
fn loop_control_of_an_unknown_loop_is_refused() {
    let mut s = looping_session();
    match s.step(&BlockProgram::Continue { loop_id: "nope".to_string() }) {
        Err(OrchestrationError::ValidationError(m)) => assert_eq!(m, "Continue references unknown loop_id 'nope'"),
        other => panic!("unexpected {other:?}"),
    }
    match s.step(&BlockProgram::Break { loop_id: "nope".to_string() }) {
        Err(OrchestrationError::ValidationError(m)) => assert_eq!(m, "Break references unknown loop_id 'nope'"),
        other => panic!("unexpected {other:?}"),
    }
    assert_eq!(current(&s), Some("loop".to_string()));
}

#[test]
fn awaiting_input_pauses_until_input_arrives() {
    let mut s = looping_session();
    let block = BlockProgram::AwaitInput {
        interaction_id: "ask".to_string(),
        agent_id: "agent".to_string(),
        prompt: "Choose".to_string(),
        state_key: "choice".to_string(),
        next_block: "after".to_string(),
    };
    match s.step(&block).unwrap() {
        StepAction::AwaitInput { interaction_id, agent_id, prompt } => {
            assert_eq!((interaction_id.as_str(), agent_id.as_str(), prompt.as_str()), ("ask", "agent", "Choose"));
        }
        other => panic!("unexpected action {other:?}"),
    }
    s.set_awaiting_input("ask".to_string(), "agent".to_string(), datum("\"Choose\"", true));
    assert!(s.resume_with_input(datum("\"refine it\"", true)).is_ok());
    assert!(matches!(s.step(&block), Ok(StepAction::Advanced)));
    assert_eq!(variable(&s, "choice"), Some("\"refine it\"".to_string()));
    assert_eq!(variable(&s, "input"), None);
    assert_eq!(current(&s), Some("after".to_string()));
}

#[test]
fn conditions_compare_answers_and_read_flags() {
    let mut s = looping_session();
    let choice = BlockProgram::Conditional {
        condition: "choice == \"Refinement\"".to_string(),
        true_block: "yes".to_string(),
        false_block: "no".to_string(),
    };
    assert!(matches!(s.step(&choice), Ok(StepAction::Advanced)));
    assert_eq!(current(&s), Some("no".to_string()));
    s.execution_context.set_value("choice", datum("\"Please REFINE\"", true));
    assert!(s.evaluate_condition("choice == \"Refinement\""));
    s.step(&choice).unwrap();
    assert_eq!(current(&s), Some("yes".to_string()));
    s.execution_context.set_value("choice", datum("2", true));
    assert!(!s.evaluate_condition("choice == \"Refinement\""));

    assert!(!s.evaluate_condition("ready"));
    s.execution_context.set_value("ready", datum("true", true));
    assert!(s.evaluate_condition("ready"));
    s.execution_context.set_value("ready", datum("1", true));
    assert!(!s.evaluate_condition("ready"));
    assert!(!s.evaluate_condition("a == b == c"));
}

#[test]
fn compute_stores_booleans_and_hands_other_expressions_on() {
    let mut s = looping_session();
    let block = BlockProgram::Compute {
        expression: "true".to_string(),
        output_key: "done".to_string(),
        next_block: "after".to_string(),
    };
    assert!(matches!(s.step(&block), Ok(StepAction::Advanced)));
    let stored = s.get_execution_context().get_variable("done").unwrap().clone();
    assert_eq!((stored.text.as_str(), stored.truthy), ("true", true));
    assert_eq!(current(&s), Some("after".to_string()));

    let other = BlockProgram::Compute {
        expression: "[1]".to_string(),
        output_key: "out".to_string(),
        next_block: "next".to_string(),
    };
    match s.step(&other).unwrap() {
        StepAction::Compute { expression, parsed, output_key, next_block } => {
            assert_eq!((expression.as_str(), output_key.as_str(), next_block.as_str()), ("[1]", "out", "next"));
            assert!(parsed);
        }
        a => panic!("unexpected action {a:?}"),
    }
    assert_eq!(current(&s), Some("after".to_string()));
    let words = BlockProgram::Compute {
        expression: "plain words".to_string(),
        output_key: "out".to_string(),
        next_block: "next".to_string(),
    };
    assert!(matches!(s.step(&words), Ok(StepAction::Compute { parsed: false, .. })));
}

#[test]
fn outside_work_is_handed_to_the_driver() {
    let mut s = looping_session();
    match s.step(&BlockProgram::AgentInteraction {
        agent_selector: AgentSelector::ById("a7".to_string()),
        timeout_secs: Some(5),
        retry_max_attempts: None,
        next_block: "n".to_string(),
    }).unwrap() {
        StepAction::InteractWithAgent { criteria, options, next_block } => {
            assert_eq!(criteria.preferred_tags, vec!["id:a7".to_string()]);
            assert!(!criteria.exclude_busy);
            assert_eq!(options.timeout_seconds, Some(5));
            assert_eq!(options.retry_attempts, 3);
            assert_eq!(next_block, "n");
        }
        a => panic!("unexpected action {a:?}"),
    }
    match s.step(&BlockProgram::ParallelExecution {
        branch_blocks: vec!["x".to_string(), "y".to_string()],
        merge_strategy: MergeStrategy::Custom { strategy_name: "vote".to_string() },
        timeout_secs: None,
        next_block: "n".to_string(),
    }).unwrap() {
        StepAction::RunParallel { branch_blocks, merge_strategy, timeout_secs, next_block } => {
            assert_eq!(branch_blocks, vec!["x".to_string(), "y".to_string()]);
            assert!(matches!(merge_strategy, MergeStrategy::Custom { strategy_name } if strategy_name == "vote"));
            assert_eq!(timeout_secs, 300);
            assert_eq!(next_block, "n");
        }
        a => panic!("unexpected action {a:?}"),
    }
    assert!(matches!(s.step(&BlockProgram::Terminate), Ok(StepAction::Completed)));
    match s.step(&BlockProgram::Unsupported) {
        Err(OrchestrationError::ValidationError(m)) => {
            assert_eq!(m, "Cannot convert orchestration block to standard block")
        }
        other => panic!("unexpected {other:?}"),
    }
    assert_eq!(current(&s), Some("loop".to_string()));
}
