use coding_env::services::project_service::{ProjectError, ProjectService};
use coding_env::models::project::Projects;

#[test]
fn associate_uses_last_path_segment_as_default_name() {
    let mut projects = Projects::new();
    let p = ProjectService::associate_project(&mut projects, "/home/me/projects/my-app", "plan-1", None).ok().unwrap();
    assert_eq!(p.name, "my-app");
    assert_eq!(p.path, "/home/me/projects/my-app");
    assert_eq!(p.associated_plan, "plan-1");
    assert!(p.id.starts_with("proj-"));
    assert_eq!(p.id.len(), 37);
    let q = ProjectService::associate_project(&mut projects, "/home/u/my-app/", "plan-2", None).ok().unwrap();
    assert_eq!(q.name, "my-app");
    assert_eq!(q.path, "/home/u/my-app/");
    let r = ProjectService::associate_project(&mut projects, "relative", "plan-2", Some("Named".to_string())).ok().unwrap();
    assert_eq!(r.name, "Named");
    let s = ProjectService::associate_project(&mut projects, "plain", "plan-2", None).ok().unwrap();
    assert_eq!(s.name, "plain");
    assert_eq!(ProjectService::list_projects(&projects).len(), 4);
}

#[test]
fn associating_same_path_twice_is_refused() {
    let mut projects = Projects::new();
    ProjectService::associate_project(&mut projects, "/a", "plan-1", None).ok().unwrap();
    match ProjectService::associate_project(&mut projects, "/a", "plan-2", None) {
        Err(ProjectError::AlreadyAssociated(p)) => assert_eq!(p, "/a"),
        _ => panic!("second association accepted"),
    }
    assert_eq!(projects.projects.len(), 1);
    assert_eq!(ProjectService::get_project(&projects, "/a").ok().unwrap().associated_plan, "plan-1");
}

#[test]
fn dissociate_then_lookup_fails() {
    let mut projects = Projects::new();
    ProjectService::associate_project(&mut projects, "/a", "plan-1", None).ok().unwrap();
    ProjectService::associate_project(&mut projects, "/b", "plan-1", None).ok().unwrap();
    assert!(ProjectService::dissociate_project(&mut projects, "/a").is_ok());
    match ProjectService::get_project(&projects, "/a") {
        Err(ProjectError::NotFound(p)) => assert_eq!(p, "/a"),
        _ => panic!("dissociated project found"),
    }
    assert!(matches!(ProjectService::dissociate_project(&mut projects, "/a"), Err(ProjectError::NotFound(_))));
    assert_eq!(projects.list_all().len(), 1);
    assert_eq!(projects.list_all()[0].path, "/b");
}

#[test]
fn project_id_from_uuid_prefixes() {
    assert_eq!(ProjectService::project_id_from_uuid("abc"), "proj-abc");
}

#[test]
fn project_lookup_in_place() {
    let mut projects = Projects::new();
    ProjectService::associate_project(&mut projects, "/a", "plan-1", None).ok().unwrap();
    if let Some(p) = projects.get_project_mut("/a") {
        p.name = "renamed".to_string();
    }
    assert_eq!(projects.get_project("/a").unwrap().name, "renamed");
    assert!(projects.get_project_mut("/z").is_none());
    assert!(projects.remove_project("/a").is_some());
    assert!(projects.remove_project("/a").is_none());
}

#[test]
fn associate_with_given_id() {
    let mut projects = Projects::new();
    let p = ProjectService::associate_project_with_id(&mut projects, "proj-1".to_string(), "/x/y", "plan", None).ok().unwrap();
    assert_eq!(p.id, "proj-1");
    assert_eq!(p.name, "y");
    assert!(matches!(
        ProjectService::associate_project_with_id(&mut projects, "proj-2".to_string(), "/x/y", "plan", None),
        Err(ProjectError::AlreadyAssociated(_))
    ));
}
