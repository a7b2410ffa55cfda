use responses_api_proxy::agents::{
    agent_from_file, default_agents_dir, is_excluded, is_markdown_extension, parse_agent_frontmatter,
    parse_sandbox_policy, sort_by_name, CustomAgentTask, SandboxPolicy,
};

#[test]
fn parse_frontmatter_preserves_body_newlines() {
    let content = "---\r\ndescription: \"Test agent\"\r\nmodel: \"gpt-4\"\r\n---\r\nFirst line\r\nSecond line\r\n";
    let (desc, model, _sandbox, body) = parse_agent_frontmatter(content);
    assert_eq!(desc.as_deref(), Some("Test agent"));
    assert_eq!(model.as_deref(), Some("gpt-4"));
    assert_eq!(body, "First line\r\nSecond line\r\n");
}

#[test]
fn frontmatter_fields_and_body() {
    let text = "---\ndescription: \"Code review specialist\"\nmodel: \"review-model-2\"\nsandbox: \"read-only\"\n---\nYou are a code review expert.";
    let (desc, model, sandbox, body) = parse_agent_frontmatter(text);
    assert_eq!(desc.as_deref(), Some("Code review specialist"));
    assert_eq!(model.as_deref(), Some("review-model-2"));
    assert_eq!(sandbox.as_deref(), Some("read-only"));
    assert_eq!(body, "You are a code review expert.");
}

#[test]
fn frontmatter_absent_or_unterminated() {
    assert_eq!(
        parse_agent_frontmatter("Check style"),
        (None, None, None, "Check style".to_string())
    );
    assert_eq!(
        parse_agent_frontmatter("---\nmodel: x\nno end"),
        (None, None, None, "---\nmodel: x\nno end".to_string())
    );
    assert_eq!(parse_agent_frontmatter(""), (None, None, None, String::new()));
}

#[test]
fn frontmatter_comments_keys_and_quotes() {
    let text = "  ---  \n# comment\n\nMODEL : 'm1'\nunknown: x\nnot a pair\ndescription: \"\n---";
    let (desc, model, sandbox, body) = parse_agent_frontmatter(text);
    assert_eq!(model.as_deref(), Some("m1"));
    assert_eq!(desc.as_deref(), Some("\""));
    assert_eq!(sandbox, None);
    assert_eq!(body, "");
}

#[test]
fn test_parse_sandbox_policy() {
    assert!(matches!(
        parse_sandbox_policy("read-only"),
        Some(SandboxPolicy::ReadOnly)
    ));
    assert!(matches!(
        parse_sandbox_policy("workspace-write"),
        Some(SandboxPolicy::WorkspaceWrite { .. })
    ));
    assert!(matches!(
        parse_sandbox_policy("danger-full-access"),
        Some(SandboxPolicy::DangerFullAccess)
    ));
    assert!(parse_sandbox_policy("invalid").is_none());
}

#[test]
fn sandbox_policy_ignores_case_and_space() {
    assert!(matches!(
        parse_sandbox_policy("  Read-Only\n"),
        Some(SandboxPolicy::ReadOnly)
    ));
    assert_eq!(
        parse_sandbox_policy("WORKSPACE-WRITE"),
        Some(SandboxPolicy::WorkspaceWrite {
            writable_roots: Vec::new(),
            network_access: false,
            exclude_tmpdir_env_var: false,
            exclude_slash_tmp: false,
        })
    );
}

#[test]
fn agents_dir_under_home() {
    assert_eq!(
        default_agents_dir(Some("/home/u/.codex")),
        Some("/home/u/.codex/agents".to_string())
    );
    assert_eq!(
        default_agents_dir(Some("/home/u/.codex/")),
        Some("/home/u/.codex/agents".to_string())
    );
    assert_eq!(default_agents_dir(None), None);
}

#[test]
fn agent_files() {
    assert!(is_markdown_extension("md"));
    assert!(is_markdown_extension("MD"));
    assert!(!is_markdown_extension("txt"));
    let exclude = vec!["review".to_string()];
    assert!(is_excluded("review", &exclude));
    assert!(!is_excluded("custom", &exclude));
    let agent = agent_from_file(
        "specialist".to_string(),
        "/a/specialist.md".to_string(),
        "---\nsandbox: read-only\n---\nBody",
    );
    assert_eq!(agent.name, "specialist");
    assert_eq!(agent.path, "/a/specialist.md");
    assert_eq!(agent.sandbox.as_deref(), Some("read-only"));
    assert_eq!(agent.description, None);
    assert_eq!(agent.instructions, "Body");
}

#[test]
fn agents_sorted_by_name() {
    let make = |n: &str, body: &str| agent_from_file(n.to_string(), format!("/d/{n}.md"), body);
    let sorted = sort_by_name(vec![
        make("stylist", "Check style"),
        make("analyzer", "Find bugs"),
        make("b", "first b"),
        make("Zed", "upper case first"),
        make("b", "second b"),
    ]);
    let names: Vec<&str> = sorted.iter().map(|a| a.name.as_str()).collect();
    assert_eq!(names, vec!["Zed", "analyzer", "b", "b", "stylist"]);
    assert_eq!(sorted[2].instructions, "first b");
    assert_eq!(sorted[3].instructions, "second b");
    assert!(sort_by_name(Vec::new()).is_empty());
}

#[test]
fn agent_task_holds_its_settings() {
    let task = CustomAgentTask::new(
        "helper".to_string(),
        "Be brief.".to_string(),
        Some("gpt-4".to_string()),
        SandboxPolicy::ReadOnly,
    );
    assert_eq!(task.agent_name, "helper");
    assert_eq!(task.instructions, "Be brief.");
    assert_eq!(task.model.as_deref(), Some("gpt-4"));
    assert_eq!(task.sandbox_policy, SandboxPolicy::ReadOnly);
}
