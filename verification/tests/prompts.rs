use sleet::llm::errors::LLMError;
use sleet::llm::prompts::context_builders::{agent_context, merge_contexts, proposal_context, task_context};
use sleet::llm::prompts::{PromptBuilder, PromptContext, PromptTemplate};

fn config_message(e: LLMError) -> String {
    match e {
        LLMError::ConfigError(m) => m,
        other => panic!("unexpected error {other:?}"),
    }
}

#[test]
fn test_prompt_template_creation() {
    let template = PromptTemplate::new("test_template", "You are a test assistant.", "Please help with {{task}}")
        .with_description("A test template")
        .with_variables(vec!["task".to_string()]);

    assert_eq!(template.name, "test_template");
    assert_eq!(template.description, "A test template");
    assert_eq!(template.variables, vec!["task"]);
}

#[test]
fn test_prompt_builder() {
    let mut builder = PromptBuilder::new();

    let template = PromptTemplate::new(
        "greeting",
        "You are a helpful assistant.",
        "Hello {{name}}, how can I help you with {{task}}?",
    )
    .with_variables(vec!["name".to_string(), "task".to_string()]);

    builder.add_template(template);

    let mut context = PromptContext::new();
    context.insert("name".to_string(), "Alice".to_string());
    context.insert("task".to_string(), "coding".to_string());

    let (system_prompt, user_prompt) = builder.build_prompt("greeting", &context).unwrap();

    assert_eq!(system_prompt, "You are a helpful assistant.");
    assert_eq!(user_prompt, "Hello Alice, how can I help you with coding?");
}

#[test]
fn test_agent_templates() {
    let builder = PromptBuilder::with_agent_templates();
    let templates = builder.list_templates();

    assert!(templates.contains(&"distil_feedback".to_string()));
    assert!(templates.contains(&"initial_proposal".to_string()));
    assert!(templates.contains(&"assess_proposal".to_string()));
}

#[test]
fn test_context_validation() {
    let mut builder = PromptBuilder::new();

    let template =
        PromptTemplate::new("test", "System", "User: {{required_var}}").with_variables(vec!["required_var".to_string()]);

    builder.add_template(template);

    let mut context = PromptContext::new();

    assert!(builder.validate_context("test", &context).is_err());

    context.insert("required_var".to_string(), "value".to_string());
    assert!(builder.validate_context("test", &context).is_ok());
}

#[test]
fn unknown_templates_are_configuration_errors() {
    let builder = PromptBuilder::new();
    let context = PromptContext::new();
    assert_eq!(config_message(builder.build_prompt("nope", &context).unwrap_err()), "Template 'nope' not found");
    assert_eq!(config_message(builder.validate_context("nope", &context).unwrap_err()), "Template 'nope' not found");
}

#[test]
fn missing_variables_are_listed_in_order() {
    let mut builder = PromptBuilder::new();
    builder.add_template(
        PromptTemplate::new("t", "s", "u").with_variables(vec!["a".to_string(), "b".to_string(), "c".to_string()]),
    );
    let mut context = PromptContext::new();
    context.insert("b".to_string(), "x".to_string());
    assert_eq!(
        config_message(builder.validate_context("t", &context).unwrap_err()),
        "Missing required variables for template 't': [\"a\", \"c\"]"
    );
}

#[test]
fn unbound_placeholders_stay_and_every_occurrence_is_filled() {
    let mut builder = PromptBuilder::new();
    builder.add_template(PromptTemplate::new("t", "{{x}} and {{x}}", "{{y}} {x}"));
    let mut context = PromptContext::new();
    context.insert("x".to_string(), "1".to_string());
    let (s, u) = builder.build_prompt("t", &context).unwrap();
    assert_eq!(s, "1 and 1");
    assert_eq!(u, "{{y}} {x}");
}

#[test]
fn templates_can_be_replaced_and_removed() {
    let mut builder = PromptBuilder::new();
    builder.add_template(PromptTemplate::new("t", "one", "u"));
    builder.add_template(PromptTemplate::new("t", "two", "u"));
    assert_eq!(builder.list_templates(), vec!["t".to_string()]);
    assert_eq!(builder.get_template("t").unwrap().system_template, "two");
    let removed = builder.remove_template("t").unwrap();
    assert_eq!(removed.system_template, "two");
    assert!(builder.get_template("t").is_none());
    assert!(builder.remove_template("t").is_none());
}

#[test]
fn collaboration_templates_declare_their_variables() {
    let builder = PromptBuilder::with_agent_templates();
    assert_eq!(builder.list_templates().len(), 7);
    let t = builder.get_template("assess_proposal").unwrap();
    assert_eq!(
        t.variables,
        vec!["arbiter_name", "arbiter_specialisation", "goal", "iteration", "proposal", "distilled_feedback"]
    );
    assert!(t.user_template.starts_with("GOAL: {{goal}}\nITERATION: {{iteration}}"));
}

#[test]
fn metadata_keeps_json_texts() {
    let t = PromptTemplate::new("t", "s", "u").with_metadata("version", "2".to_string());
    assert_eq!(t.metadata.get("version"), Some(&"2".to_string()));
}

#[test]
fn context_builders_bind_their_variables() {
    let a = agent_context("Ada", "analyst", "rust");
    assert_eq!(a.get("agent_name"), Some(&"Ada".to_string()));
    assert_eq!(a.get("agent_role"), Some(&"analyst".to_string()));
    assert_eq!(a.get("agent_specialisation"), Some(&"rust".to_string()));
    let t = task_context("write docs", 12);
    assert_eq!(t.get("iteration"), Some(&"12".to_string()));
    let p = proposal_context("{\"concept\":\"x\"}", None);
    assert_eq!(p.len(), 1);
    let p = proposal_context("{}", Some("[]"));
    assert_eq!(p.get("feedback"), Some(&"[]".to_string()));
    let merged = merge_contexts(&vec![a, task_context("later", 3), task_context("latest", 4)]);
    assert_eq!(merged.get("task_description"), Some(&"latest".to_string()));
    assert_eq!(merged.get("iteration"), Some(&"4".to_string()));
    assert_eq!(merged.len(), 5);
}
