use coding_env::clock::Timestamp;
use coding_env::models::api_config::ApiConfig;
use coding_env::models::plan::{Plan, PlanContent, PlanTags};
use coding_env::models::project::Project;
use coding_env::services::env_service::env_script;

#[test]
fn env_script_exports_key_plan_and_directory() {
    let t = Timestamp { seconds: 0, nanos: 0 };
    let project = Project {
        id: "proj-1".to_string(),
        path: "/w/app".to_string(),
        name: "App".to_string(),
        associated_plan: "plan-9".to_string(),
        created_at: t,
    };
    let mut config = ApiConfig {
        id: "work".to_string(),
        name: "Work".to_string(),
        api_key: "sk-abc".to_string(),
        base_url: "https://api".to_string(),
        model: None,
        is_active: true,
        created_at: t,
        updated_at: t,
    };
    let plan = Plan {
        id: "plan-9".to_string(),
        name: "Big Plan".to_string(),
        description: String::new(),
        content: PlanContent { steps: vec!["a".to_string(), "b".to_string()] },
        template_ref: None,
        current_version: 3,
        created_at: t,
        updated_at: t,
        tags: PlanTags::new(),
    };
    let lines = env_script(&project, &config, &plan);
    assert_eq!(
        lines,
        vec![
            "# Environment configuration for: App",
            "# Generated by coding-env",
            "# Plan: Big Plan (plan-9)",
            "",
            "export ANTHROPIC_API_KEY=\"sk-abc\"",
            "export ANTHROPIC_BASE_URL=\"https://api\"",
            "export CLAUDE_ENV_PLAN=\"plan-9\"",
            "export CLAUDE_ENV_PLAN_NAME=\"Big Plan\"",
            "cd \"/w/app\"",
            "",
            "echo \"Environment loaded for project: App\"",
            "echo \"Active plan: Big Plan (plan-9)\"",
            "echo \"Plan has 2 steps\"",
        ]
    );
    config.model = Some("opus".to_string());
    let lines = env_script(&project, &config, &plan);
    assert_eq!(lines.len(), 14);
    assert_eq!(lines[6], "export ANTHROPIC_MODEL=\"opus\"");
}
