use coding_env::storage::config_dir::{
    get_api_configs_path, get_config_dir, get_plans_path, get_projects_path, get_templates_path,
    get_version_path, get_versions_dir, init, path_join, version_file_name,
};

#[test]
fn directory_layout() {
    assert_eq!(get_config_dir("/home/u"), "/home/u/.coding-env");
    assert_eq!(get_versions_dir("/home/u"), "/home/u/.coding-env/versions");
    assert_eq!(get_api_configs_path("/home/u"), "/home/u/.coding-env/api_configs.xml");
    assert_eq!(get_plans_path("/home/u"), "/home/u/.coding-env/plans.xml");
    assert_eq!(get_templates_path("/home/u"), "/home/u/.coding-env/templates.xml");
    assert_eq!(get_projects_path("/home/u"), "/home/u/.coding-env/projects.xml");
}

#[test]
fn version_paths() {
    assert_eq!(version_file_name("plan-x", 0), "plan-x_v0.xml");
    assert_eq!(version_file_name("plan-x", 4294967295), "plan-x_v4294967295.xml");
    assert_eq!(get_version_path("/h", "plan-abc", 12), "/h/.coding-env/versions/plan-abc_v12.xml");
}

#[test]
fn join_follows_path_rules() {
    assert_eq!(path_join("/a", "b"), "/a/b");
    assert_eq!(path_join("/a/", "b"), "/a/b");
    assert_eq!(path_join("", "b"), "b");
    assert_eq!(path_join("/a", "/b"), "/b");
    assert_eq!(path_join("/a", ""), "/a/");
    for (base, name) in [("/a", "b"), ("x/", "y/z"), ("", "q"), ("/a", "/abs"), ("rel", "")] {
        let std_join = std::path::Path::new(base).join(name);
        assert_eq!(path_join(base, name), std_join.to_str().unwrap());
    }
}

#[test]
fn init_lists_four_empty_files() {
    let files = init("/h");
    assert_eq!(files.len(), 4);
    assert_eq!(files[0].path, "/h/.coding-env/api_configs.xml");
    assert_eq!(files[0].content, "<?xml version=\"1.0\" encoding=\"UTF-8\"?>\n<api_configs>\n</api_configs>");
    assert_eq!(files[1].path, "/h/.coding-env/plans.xml");
    assert_eq!(files[1].content, "<?xml version=\"1.0\" encoding=\"UTF-8\"?>\n<plans>\n</plans>");
    assert_eq!(files[2].path, "/h/.coding-env/templates.xml");
    assert_eq!(files[3].path, "/h/.coding-env/projects.xml");
    assert_eq!(files[3].content, "<?xml version=\"1.0\" encoding=\"UTF-8\"?>\n<projects>\n</projects>");
}
