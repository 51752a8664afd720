//! The layout of the configuration directory under the user's home.
use vstd::prelude::*;

use crate::text::{concat_str, push_char, push_decimal, decimal};

verus! {

/// The configuration directory, relative to the home directory.
pub const CONFIG_DIR_NAME: &'static str = ".coding-env";

/// The directory of plan version snapshots, inside the configuration
/// directory.
pub const VERSIONS_DIR_NAME: &'static str = "versions";

/// The file of API configurations.
pub const API_CONFIGS_FILE: &'static str = "api_configs.xml";

/// The file of plans.
pub const PLANS_FILE: &'static str = "plans.xml";

/// The file of templates.
pub const TEMPLATES_FILE: &'static str = "templates.xml";

/// The file of project associations.
pub const PROJECTS_FILE: &'static str = "projects.xml";

/// What an empty file of API configurations holds.
pub const EMPTY_API_CONFIGS: &'static str = "<?xml version=\"1.0\" encoding=\"UTF-8\"?>\n<api_configs>\n</api_configs>";

/// What an empty file of plans holds.
pub const EMPTY_PLANS: &'static str = "<?xml version=\"1.0\" encoding=\"UTF-8\"?>\n<plans>\n</plans>";

/// What an empty file of templates holds.
pub const EMPTY_TEMPLATES: &'static str = "<?xml version=\"1.0\" encoding=\"UTF-8\"?>\n<templates>\n</templates>";

/// What an empty file of project associations holds.
pub const EMPTY_PROJECTS: &'static str = "<?xml version=\"1.0\" encoding=\"UTF-8\"?>\n<projects>\n</projects>";

/// `name` taken relative to `base`, as `Path::join` forms it on Unix: an
/// absolute `name` stands alone, and otherwise one `'/'` separates the two
/// unless `base` is empty or ends in one.
pub open spec fn path_join_spec(base: Seq<char>, name: Seq<char>) -> Seq<char> {
    if name.len() > 0 && name[0] == '/' {
        name
    } else if base.len() == 0 || base.last() == '/' {
        base + name
    } else {
        base + seq!['/'] + name
    }
}

/// Joins a path and a name.
pub fn path_join(base: &str, name: &str) -> (r: String)
    ensures
        r@ == path_join_spec(base@, name@),
{
    let name_len: usize = name.unicode_len();
    if name_len > 0 && name.get_char(0) == '/' {
        return String::from_str(name);
    }
    let base_len: usize = base.unicode_len();
    if base_len == 0 || base.get_char(base_len - 1) == '/' {
        return concat_str(base, name);
    }
    let mut r = String::from_str(base);
    push_char(&mut r, '/');
    r.append(name);
    r
}

/// The configuration directory of the user whose home directory is `home`.
pub open spec fn config_dir_spec(home: Seq<char>) -> Seq<char> {
    path_join_spec(home, CONFIG_DIR_NAME@)
}

/// The directory of plan version snapshots.
pub open spec fn versions_dir_spec(home: Seq<char>) -> Seq<char> {
    path_join_spec(config_dir_spec(home), VERSIONS_DIR_NAME@)
}

/// The file name of the snapshot of version `version` of plan `plan_id`:
/// `{plan_id}_v{version}.xml`.
pub open spec fn version_file_name_spec(plan_id: Seq<char>, version: u32) -> Seq<char> {
    plan_id + "_v"@ + decimal(version as nat) + ".xml"@
}

/// The configuration directory of the user whose home directory is `home`.
pub fn get_config_dir(home: &str) -> (r: String)
    ensures
        r@ == config_dir_spec(home@),
{
    path_join(home, CONFIG_DIR_NAME)
}

/// The directory of plan version snapshots.
pub fn get_versions_dir(home: &str) -> (r: String)
    ensures
        r@ == versions_dir_spec(home@),
{
    let dir = get_config_dir(home);
    path_join(dir.as_str(), VERSIONS_DIR_NAME)
}

/// The file of API configurations.
pub fn get_api_configs_path(home: &str) -> (r: String)
    ensures
        r@ == path_join_spec(config_dir_spec(home@), API_CONFIGS_FILE@),
{
    let dir = get_config_dir(home);
    path_join(dir.as_str(), API_CONFIGS_FILE)
}

/// The file of plans.
pub fn get_plans_path(home: &str) -> (r: String)
    ensures
        r@ == path_join_spec(config_dir_spec(home@), PLANS_FILE@),
{
    let dir = get_config_dir(home);
    path_join(dir.as_str(), PLANS_FILE)
}

/// The file of templates.
pub fn get_templates_path(home: &str) -> (r: String)
    ensures
        r@ == path_join_spec(config_dir_spec(home@), TEMPLATES_FILE@),
{
    let dir = get_config_dir(home);
    path_join(dir.as_str(), TEMPLATES_FILE)
}

/// The file of project associations.
pub fn get_projects_path(home: &str) -> (r: String)
    ensures
        r@ == path_join_spec(config_dir_spec(home@), PROJECTS_FILE@),
{
    let dir = get_config_dir(home);
    path_join(dir.as_str(), PROJECTS_FILE)
}

/// The file name of the snapshot of version `version` of plan `plan_id`.
pub fn version_file_name(plan_id: &str, version: u32) -> (r: String)
    ensures
        r@ == version_file_name_spec(plan_id@, version),
{
    let mut r = concat_str(plan_id, "_v");
    push_decimal(&mut r, version as u64);
    r.append(".xml");
    r
}

/// The file of the snapshot of version `version` of plan `plan_id`.
pub fn get_version_path(home: &str, plan_id: &str, version: u32) -> (r: String)
    ensures
        r@ == path_join_spec(versions_dir_spec(home@), version_file_name_spec(plan_id@, version)),
{
    let dir = get_versions_dir(home);
    let name = version_file_name(plan_id, version);
    path_join(dir.as_str(), name.as_str())
}

/// A file that initialisation creates, with what it first holds.
pub struct InitFile {
    pub path: String,
    pub content: String,
}

/// The files that initialisation creates where they do not exist yet, in
/// order: the API configurations, the plans, the templates and the project
/// associations, each holding an empty list.
pub fn init(home: &str) -> (r: Vec<InitFile>)
    ensures
        r@.len() == 4,
        r@[0].path@ == path_join_spec(config_dir_spec(home@), API_CONFIGS_FILE@),
        r@[0].content@ == EMPTY_API_CONFIGS@,
        r@[1].path@ == path_join_spec(config_dir_spec(home@), PLANS_FILE@),
        r@[1].content@ == EMPTY_PLANS@,
        r@[2].path@ == path_join_spec(config_dir_spec(home@), TEMPLATES_FILE@),
        r@[2].content@ == EMPTY_TEMPLATES@,
        r@[3].path@ == path_join_spec(config_dir_spec(home@), PROJECTS_FILE@),
        r@[3].content@ == EMPTY_PROJECTS@,
{
    let mut r: Vec<InitFile> = Vec::new();
    r.push(
        InitFile {
            path: get_api_configs_path(home),
            content: String::from_str(EMPTY_API_CONFIGS),
        },
    );
    r.push(InitFile { path: get_plans_path(home), content: String::from_str(EMPTY_PLANS) });
    r.push(
        InitFile { path: get_templates_path(home), content: String::from_str(EMPTY_TEMPLATES) },
    );
    r.push(InitFile { path: get_projects_path(home), content: String::from_str(EMPTY_PROJECTS) });
    r
}

} // verus!
