use clawdia::advisor::generator::{generate_policies, generate_schema};
use clawdia::advisor::llm::FakeLlmClient;
use clawdia::advisor::types::{AgentSpec, DiscoveredTool};
use clawdia::advisor::validator::{validate_policies, validate_schema};

const VALID_SCHEMA: &str = r#"
namespace AgentPolicy {
  entity Agent = { agent_type: String };
  entity System;
  action "search" appliesTo {
    principal: [Agent],
    resource: [System],
    context: {}
  };
}
"#;

const VALID_POLICY: &str = r#"
@description("researcher search")
permit(
  principal == AgentPolicy::Agent::"researcher",
  action == AgentPolicy::Action::"search",
  resource == AgentPolicy::System::"clawdia"
);
"#;

const GENERATED_POLICY: &str = r#"
@description("d")
@tool("search")
permit(
  principal == AgentPolicy::Agent::"researcher",
  action == AgentPolicy::Action::"search",
  resource == AgentPolicy::System::"clawdia"
);
"#;

fn one_tool() -> Vec<DiscoveredTool> {
    vec![DiscoveredTool { server: "s".into(), name: "search".into(), description: "web search".into() }]
}

fn one_agent() -> Vec<AgentSpec> {
    vec![AgentSpec { name: "researcher".into(), description: "searches".into(), permitted_tools: vec!["search".into()] }]
}

// ── validation ──

#[test]
fn valid_schema_compiles() {
    assert!(validate_schema(VALID_SCHEMA).is_ok());
}

#[test]
fn broken_schema_fails() {
    assert!(validate_schema("namespace { broken").is_err());
}

#[test]
fn valid_policy_passes() {
    let schema = validate_schema(VALID_SCHEMA).unwrap();
    assert!(validate_policies(&schema, VALID_POLICY).is_ok());
}

#[test]
fn policy_referencing_unknown_action_fails() {
    let schema = validate_schema(VALID_SCHEMA).unwrap();
    let bad = r#"
permit(
  principal == AgentPolicy::Agent::"r",
  action == AgentPolicy::Action::"nonexistent",
  resource == AgentPolicy::System::"clawdia"
);
"#;
    assert!(validate_policies(&schema, bad).is_err());
}

#[test]
fn malformed_policy_text_fails() {
    let schema = validate_schema(VALID_SCHEMA).unwrap();
    assert!(validate_policies(&schema, "not a policy").is_err());
}

#[test]
fn validation_error_messages() {
    match validate_schema("namespace { broken") {
        Err(e) => assert_eq!(e, "invalid Cedar schema"),
        Ok(_) => panic!("expected an invalid schema"),
    }
    let schema = validate_schema(VALID_SCHEMA).unwrap();
    assert_eq!(validate_policies(&schema, "not a policy").unwrap_err(), "failed to parse Cedar policies");
    let bad = r#"permit(principal, action == AgentPolicy::Action::"nonexistent", resource);"#;
    assert!(validate_policies(&schema, bad).unwrap_err().starts_with("policy validation failed:\n"));
}

// ── generation ──

#[test]
fn schema_generated_on_first_try() {
    let mut client = FakeLlmClient::new(vec![VALID_SCHEMA]);
    let (src, _schema) = generate_schema(&mut client, &one_tool()).unwrap();
    assert!(src.contains("namespace AgentPolicy"));
}

#[test]
fn schema_recovers_on_retry() {
    let mut client = FakeLlmClient::new(vec!["broken garbage", VALID_SCHEMA]);
    let (src, _) = generate_schema(&mut client, &one_tool()).unwrap();
    assert!(src.contains("AgentPolicy"));
    assert_eq!(client.calls().len(), 2);
}

#[test]
fn schema_fails_after_max_retries() {
    let mut client = FakeLlmClient::new(vec!["bad", "still bad", "still bad again"]);
    let err = generate_schema(&mut client, &one_tool()).err().unwrap();
    assert!(err.contains("exhausted"));
}

#[test]
fn policies_generated_per_agent() {
    let mut schema_client = FakeLlmClient::new(vec![VALID_SCHEMA]);
    let (_, schema) = generate_schema(&mut schema_client, &one_tool()).unwrap();

    let mut policy_client = FakeLlmClient::new(vec![GENERATED_POLICY]);
    let policies = generate_policies(&mut policy_client, &schema, &one_agent(), "clawdia", &one_tool()).unwrap();
    assert_eq!(policies.len(), 1);
    let researcher = &policies.iter().find(|(name, _)| name == "researcher").unwrap().1;
    assert!(researcher.contains("researcher"));
}

#[test]
fn retry_prompt_carries_the_error() {
    let mut client = FakeLlmClient::new(vec!["broken garbage", VALID_SCHEMA]);
    generate_schema(&mut client, &one_tool()).unwrap();
    let calls = client.calls();
    assert!(calls[1].1.contains("broken garbage"));
    assert!(calls[1].1.contains("invalid Cedar schema"));
}

#[test]
fn policies_come_out_in_name_order() {
    let mut schema_client = FakeLlmClient::new(vec![VALID_SCHEMA]);
    let (_, schema) = generate_schema(&mut schema_client, &one_tool()).unwrap();
    let writer_policy = GENERATED_POLICY.replace("researcher", "writer");
    let agents = vec![
        AgentSpec { name: "writer".into(), description: "writes".into(), permitted_tools: vec!["search".into()] },
        AgentSpec { name: "researcher".into(), description: "searches".into(), permitted_tools: vec!["search".into()] },
    ];
    let mut client = FakeLlmClient::new(vec![writer_policy.as_str(), GENERATED_POLICY]);
    let policies = generate_policies(&mut client, &schema, &agents, "clawdia", &one_tool()).unwrap();
    let names: Vec<&str> = policies.iter().map(|(n, _)| n.as_str()).collect();
    assert_eq!(names, vec!["researcher", "writer"]);
}

#[test]
fn policy_generation_exhausts_on_persistent_failure() {
    let mut schema_client = FakeLlmClient::new(vec![VALID_SCHEMA]);
    let (_, schema) = generate_schema(&mut schema_client, &one_tool()).unwrap();
    let mut client = FakeLlmClient::new(vec!["nope", "nope", "nope"]);
    let err = generate_policies(&mut client, &schema, &one_agent(), "clawdia", &one_tool()).unwrap_err();
    assert!(err.starts_with("policy validation exhausted for agent `researcher` after 3 attempts"));
    assert_eq!(err, "policy validation exhausted for agent `researcher` after 3 attempts");
    assert_eq!(client.calls().len(), 3);
}

#[test]
fn policy_retry_keeps_the_first_valid_answer_and_stops() {
    let mut schema_client = FakeLlmClient::new(vec![VALID_SCHEMA]);
    let (_, schema) = generate_schema(&mut schema_client, &one_tool()).unwrap();
    let mut client = FakeLlmClient::new(vec!["nope", GENERATED_POLICY, "never asked for"]);
    let policies = generate_policies(&mut client, &schema, &one_agent(), "clawdia", &one_tool()).unwrap();
    assert_eq!(policies.len(), 1);
    assert_eq!(policies[0].1, GENERATED_POLICY);
    let calls = client.calls();
    assert_eq!(calls.len(), 2);
    assert_eq!(calls[0].0, calls[1].0);
    assert!(calls[1].1.contains("=== Previous output ===\nnope"));
    assert!(calls[1].1.contains("failed to parse Cedar policies"));
}

#[test]
fn a_failing_agent_stops_the_later_ones() {
    let mut schema_client = FakeLlmClient::new(vec![VALID_SCHEMA]);
    let (_, schema) = generate_schema(&mut schema_client, &one_tool()).unwrap();
    let agents = vec![
        AgentSpec { name: "first".into(), description: "a".into(), permitted_tools: vec!["search".into()] },
        AgentSpec { name: "second".into(), description: "b".into(), permitted_tools: vec!["search".into()] },
    ];
    let mut client = FakeLlmClient::new(vec![]);
    let err = generate_policies(&mut client, &schema, &agents, "clawdia", &one_tool()).unwrap_err();
    assert_eq!(err, "FakeLlmClient: no more canned responses");
    assert_eq!(client.calls().len(), 1);
    assert!(client.calls()[0].1.contains("Agent name: first"));
}

#[test]
fn no_agents_need_no_model_call() {
    let mut schema_client = FakeLlmClient::new(vec![VALID_SCHEMA]);
    let (_, schema) = generate_schema(&mut schema_client, &one_tool()).unwrap();
    let mut client = FakeLlmClient::new(vec![]);
    let policies = generate_policies(&mut client, &schema, &[], "clawdia", &one_tool()).unwrap();
    assert!(policies.is_empty());
    assert!(client.calls().is_empty());
}
