use coding_env::clock::Timestamp;
use coding_env::models::plan::{Plan, PlanContent, PlanSnapshot, PlanTags, Plans};
use coding_env::models::template::Templates;
use coding_env::services::template_service::TemplateService;
use coding_env::services::plan_service::{PlanError, PlanService};

fn plan(id: &str, version: u32, steps: &[&str]) -> Plan {
    Plan {
        id: id.to_string(),
        name: format!("Plan {}", id),
        description: "desc".to_string(),
        content: PlanContent { steps: steps.iter().map(|s| s.to_string()).collect() },
        template_ref: None,
        current_version: version,
        created_at: Timestamp { seconds: 5, nanos: 0 },
        updated_at: Timestamp { seconds: 5, nanos: 0 },
        tags: PlanTags::new(),
    }
}

fn is_lower_hex(s: &str) -> bool {
    s.chars().all(|c| c.is_ascii_digit() || ('a'..='f').contains(&c))
}

#[test]
fn created_plan_starts_empty_at_version_one() {
    let mut plans = Plans::new();
    let (p, snap) = PlanService::create_plan(&mut plans, &Templates::new(), "Web App", Some("rust-api".to_string()), "Build it".to_string());
    assert!(p.id.starts_with("plan-"));
    assert_eq!(p.id.len(), 37);
    assert!(is_lower_hex(&p.id[5..]));
    assert_eq!(&p.id[17..18], "4");
    assert_eq!(p.name, "Web App");
    assert_eq!(p.description, "Build it");
    assert_eq!(p.template_ref.as_deref(), Some("rust-api"));
    assert_eq!(p.current_version, 1);
    assert!(p.content.steps.is_empty());
    assert!(p.tags.tags.is_empty());
    assert_eq!(snap.id, p.id);
    assert_eq!(snap.version, 1);
    assert!(snap.content.steps.is_empty());
    assert_eq!(plans.plans.len(), 1);
    let found = PlanService::get_plan(&plans, &p.id).ok().unwrap();
    assert_eq!(found.name, "Web App");
}

#[test]
fn two_created_plans_get_different_ids() {
    let mut plans = Plans::new();
    let (a, _) = PlanService::create_plan(&mut plans, &Templates::new(), "A", None, "d".to_string());
    let (b, _) = PlanService::create_plan(&mut plans, &Templates::new(), "B", None, "d".to_string());
    assert_ne!(a.id, b.id);
    assert_eq!(PlanService::list_plans(&plans).len(), 2);
}

#[test]
fn plan_id_from_uuid_prefixes() {
    assert_eq!(PlanService::plan_id_from_uuid("0123456789abcdef0123456789abcdef"), "plan-0123456789abcdef0123456789abcdef");
}

#[test]
fn adding_a_step_appends_and_advances_version() {
    let mut plans = Plans::new();
    plans.add_plan(plan("p1", 1, &[]));
    let (p, snap, now) = PlanService::add_step(&mut plans, "p1", "Set up project structure").ok().unwrap();
    assert_eq!(p.current_version, 2);
    assert_eq!(p.content.steps, vec!["Set up project structure".to_string()]);
    assert_eq!(snap.version, 1);
    assert!(snap.content.steps.is_empty());
    assert_eq!(now.version, 2);
    assert_eq!(now.id, "p1");
    assert_eq!(now.content.steps, p.content.steps);
    let (p, snap, _) = PlanService::add_step(&mut plans, "p1", "Implement auth").ok().unwrap();
    assert_eq!(p.current_version, 3);
    assert_eq!(p.content.steps.len(), 2);
    assert_eq!(snap.version, 2);
    assert_eq!(snap.content.steps, vec!["Set up project structure".to_string()]);
    assert_eq!(plans.plans[0].current_version, 3);
}

#[test]
fn adding_a_step_to_missing_plan_is_refused() {
    let mut plans = Plans::new();
    plans.add_plan(plan("p1", 1, &[]));
    match PlanService::add_step(&mut plans, "p2", "x") {
        Err(PlanError::NotFound(e)) => assert_eq!(e, "p2"),
        _ => panic!("missing plan changed"),
    }
    assert_eq!(plans.plans[0].current_version, 1);
}

#[test]
fn update_changes_only_given_fields() {
    let mut plans = Plans::new();
    plans.add_plan(plan("p1", 4, &["a"]));
    let p = PlanService::update_plan(&mut plans, "p1", Some("New".to_string()), None).ok().unwrap();
    assert_eq!(p.name, "New");
    assert_eq!(p.description, "desc");
    assert_eq!(p.current_version, 4);
    assert_eq!(p.content.steps, vec!["a".to_string()]);
    let p = PlanService::update_plan(&mut plans, "p1", None, Some("D2".to_string())).ok().unwrap();
    assert_eq!(p.name, "New");
    assert_eq!(p.description, "D2");
    assert_eq!(plans.plans[0].description, "D2");
    assert!(matches!(PlanService::update_plan(&mut plans, "zz", None, None), Err(PlanError::NotFound(_))));
}

#[test]
fn delete_removes_plan() {
    let mut plans = Plans::new();
    plans.add_plan(plan("p1", 1, &[]));
    plans.add_plan(plan("p2", 1, &[]));
    assert!(PlanService::delete_plan(&mut plans, "p1").is_ok());
    assert!(matches!(PlanService::get_plan(&plans, "p1"), Err(PlanError::NotFound(_))));
    assert!(matches!(PlanService::delete_plan(&mut plans, "p1"), Err(PlanError::NotFound(_))));
    assert_eq!(plans.plans.len(), 1);
}

#[test]
fn version_history_lists_one_to_current() {
    let mut plans = Plans::new();
    plans.add_plan(plan("p1", 4, &[]));
    assert_eq!(PlanService::get_version_history(&plans, "p1").ok().unwrap(), vec![1, 2, 3, 4]);
    plans.add_plan(plan("p0", 0, &[]));
    assert!(PlanService::get_version_history(&plans, "p0").ok().unwrap().is_empty());
    assert!(matches!(PlanService::get_version_history(&plans, "x"), Err(PlanError::NotFound(_))));
}

#[test]
fn rollback_restores_content_as_new_version() {
    let mut plans = Plans::new();
    plans.add_plan(plan("p1", 1, &[]));
    let (_, snap1, snap2) = PlanService::add_step(&mut plans, "p1", "one").ok().unwrap();
    let (_, _, snap3) = PlanService::add_step(&mut plans, "p1", "two").ok().unwrap();
    assert_eq!((snap1.version, snap2.version, snap3.version), (1, 2, 3));
    assert_eq!(PlanService::get_version_history(&plans, "p1").ok().unwrap(), vec![1, 2, 3]);
    assert!(PlanService::validate_rollback(&plans, "p1", 1).is_ok());
    let (p, snap, now) = PlanService::rollback_plan(&mut plans, "p1", 1, snap1.content).ok().unwrap();
    assert!(p.content.steps.is_empty());
    assert_eq!(p.current_version, 4);
    assert_eq!(snap.version, 3);
    assert_eq!(snap.content.steps, vec!["one".to_string(), "two".to_string()]);
    assert_eq!(now.version, 4);
    assert!(now.content.steps.is_empty());
    let (p, _, _) = PlanService::rollback_plan(&mut plans, "p1", 2, snap2.content).ok().unwrap();
    assert_eq!(p.content.steps, vec!["one".to_string()]);
    assert_eq!(p.current_version, 5);
}

#[test]
fn rollback_to_future_version_is_refused() {
    let mut plans = Plans::new();
    plans.add_plan(plan("p1", 2, &["a"]));
    match PlanService::validate_rollback(&plans, "p1", 3) {
        Err(PlanError::VersionNotFound { version, current }) => {
            assert_eq!(version, 3);
            assert_eq!(current, 2);
        }
        _ => panic!("future version accepted"),
    }
    let restored = PlanContent::new();
    assert!(matches!(PlanService::rollback_plan(&mut plans, "p1", 3, restored), Err(PlanError::VersionNotFound { .. })));
    assert_eq!(plans.plans[0].content.steps, vec!["a".to_string()]);
    assert!(matches!(PlanService::validate_rollback(&plans, "q", 1), Err(PlanError::NotFound(_))));
}

#[test]
fn plans_lookup_and_mutation_in_place() {
    let mut plans = Plans::new();
    plans.add_plan(plan("x", 1, &[]));
    plans.add_plan(plan("x", 9, &[]));
    assert_eq!(plans.get_plan("x").unwrap().current_version, 1);
    if let Some(p) = plans.get_plan_mut("x") {
        p.current_version = 7;
    }
    assert_eq!(plans.plans[0].current_version, 7);
    assert_eq!(plans.plans[1].current_version, 9);
    assert!(plans.get_plan_mut("y").is_none());
    assert_eq!(plans.remove_plan("x").unwrap().current_version, 7);
    assert_eq!(plans.get_plan("x").unwrap().current_version, 9);
}

#[test]
fn snapshot_records_version_and_content() {
    let snap = PlanSnapshot::new("p".to_string(), 3, PlanContent { steps: vec!["s".to_string()] });
    assert_eq!(snap.id, "p");
    assert_eq!(snap.version, 3);
    assert_eq!(snap.content.steps, vec!["s".to_string()]);
}

#[test]
fn create_with_given_id() {
    let mut plans = Plans::new();
    let (p, s) = PlanService::create_plan_with_id(&mut plans, "plan-fixed".to_string(), "N", None, "D".to_string(), PlanContent::new());
    assert_eq!(p.id, "plan-fixed");
    assert_eq!(s.id, "plan-fixed");
    assert_eq!(PlanService::get_plan(&plans, "plan-fixed").ok().unwrap().name, "N");
}

#[test]
fn template_prefills_new_plan() {
    let mut templates = Templates::new();
    TemplateService::create_template(&mut templates, "Rust API", "<step>init</step><step>serve</step>");
    let mut plans = Plans::new();
    let (p, snap) = PlanService::create_plan(&mut plans, &templates, "P", Some("rust-api".to_string()), "d".to_string());
    assert_eq!(p.content.steps, vec!["init".to_string(), "serve".to_string()]);
    assert_eq!(snap.content.steps, p.content.steps);
    assert_eq!(p.template_ref.as_deref(), Some("rust-api"));
    assert_eq!(p.current_version, 1);
    let (q, _) = PlanService::create_plan(&mut plans, &templates, "Q", Some("missing".to_string()), "d".to_string());
    assert!(q.content.steps.is_empty());
    assert_eq!(q.template_ref.as_deref(), Some("missing"));
    let (r, _) = PlanService::create_plan(&mut plans, &templates, "R", None, "d".to_string());
    assert!(r.content.steps.is_empty());
    let steps = PlanService::template_steps(&templates, &Some("rust-api".to_string()));
    assert_eq!(steps.steps.len(), 2);
}
