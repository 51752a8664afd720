//! The shell commands that enter a project's environment.
use vstd::prelude::*;

use crate::models::api_config::{ApiConfig, ApiConfigView};
use crate::models::plan::{Plan, PlanView};
use crate::models::project::{Project, ProjectView};
use crate::text::{concat_str, decimal};

verus! {

/// The lines of shell commands that enter the environment of `project`, with
/// the active API configuration `config` and the project's plan `plan`: they
/// export the key, base URL (and model, where there is one), the plan's id
/// and name, change to the project's directory and report what was loaded.
pub open spec fn env_lines(project: ProjectView, config: ApiConfigView, plan: PlanView) -> Seq<
    Seq<char>,
> {
    let head = seq![
        "# Environment configuration for: "@ + project.name,
        "# Generated by coding-env"@,
        "# Plan: "@ + plan.name + " ("@ + project.associated_plan + ")"@,
        Seq::<char>::empty(),
        "export ANTHROPIC_API_KEY=\""@ + config.api_key + "\""@,
        "export ANTHROPIC_BASE_URL=\""@ + config.base_url + "\""@,
    ];
    let model = match config.model {
        Some(m) => seq!["export ANTHROPIC_MODEL=\""@ + m + "\""@],
        None => Seq::<Seq<char>>::empty(),
    };
    let tail = seq![
        "export CLAUDE_ENV_PLAN=\""@ + project.associated_plan + "\""@,
        "export CLAUDE_ENV_PLAN_NAME=\""@ + plan.name + "\""@,
        "cd \""@ + project.path + "\""@,
        Seq::<char>::empty(),
        "echo \"Environment loaded for project: "@ + project.name + "\""@,
        "echo \"Active plan: "@ + plan.name + " ("@ + project.associated_plan + ")\""@,
        "echo \"Plan has "@ + decimal(plan.content.len()) + " steps\""@,
    ];
    head + model + tail
}

/// `a` followed by `b` and `c`.
fn text3(a: &str, b: &str, c: &str) -> (r: String)
    ensures
        r@ == a@ + b@ + c@,
{
    let mut r = String::from_str(a);
    r.append(b);
    r.append(c);
    r
}

/// Builds the lines of [`env_lines`].
pub fn env_script(project: &Project, config: &ApiConfig, plan: &Plan) -> (r: Vec<String>)
    ensures
        r@.map_values(|s: String| s@) == env_lines(project@, config@, plan@),
{
    let mut r: Vec<String> = Vec::new();
    r.push(concat_str("# Environment configuration for: ", project.name.as_str()));
    r.push(String::from_str("# Generated by coding-env"));
    let mut l = text3("# Plan: ", plan.name.as_str(), " (");
    l.append(project.associated_plan.as_str());
    l.append(")");
    r.push(l);
    r.push(String::new());
    r.push(text3("export ANTHROPIC_API_KEY=\"", config.api_key.as_str(), "\""));
    r.push(text3("export ANTHROPIC_BASE_URL=\"", config.base_url.as_str(), "\""));
    match &config.model {
        Some(m) => {
            r.push(text3("export ANTHROPIC_MODEL=\"", m.as_str(), "\""));
        },
        None => {},
    }
    r.push(text3("export CLAUDE_ENV_PLAN=\"", project.associated_plan.as_str(), "\""));
    r.push(text3("export CLAUDE_ENV_PLAN_NAME=\"", plan.name.as_str(), "\""));
    r.push(text3("cd \"", project.path.as_str(), "\""));
    r.push(String::new());
    r.push(text3("echo \"Environment loaded for project: ", project.name.as_str(), "\""));
    let mut l = text3("echo \"Active plan: ", plan.name.as_str(), " (");
    l.append(project.associated_plan.as_str());
    l.append(")\"");
    r.push(l);
    let mut l = String::from_str("echo \"Plan has ");
    crate::text::push_decimal(&mut l, plan.content.steps.len() as u64);
    l.append(" steps\"");
    r.push(l);
    assert(plan.content.steps@.len() == plan@.content.len());
    let ghost got = r@.map_values(|s: String| s@);
    let ghost want = env_lines(project@, config@, plan@);
    assert(got.len() == want.len());
    assert forall|k: int| 0 <= k < want.len() implies got[k] == want[k] by {
        assert(got[k] == r@[k]@);
    }
    assert(got =~= want);
    r
}

} // verus!
