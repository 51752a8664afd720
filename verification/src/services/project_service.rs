//! Associating project directories with plans.
use vstd::prelude::*;

use crate::clock::current_time;
use crate::ids::{is_simple_uuid_v4, new_uuid_simple};
use crate::models::project::{
    paths_unique, project_index, project_lookup, project_paths, Project, ProjectView, Projects,
};
use crate::models::{lemma_first_index, lemma_first_index_at, lemma_first_index_none};
use crate::models::opt_view;
use crate::text::{
    concat_str, dir_name, dir_name_of, lemma_segment_start, lemma_slashes_end, segment_start,
    slashes_end,
};

verus! {

/// Why a project operation was refused.
pub enum ProjectError {
    /// A project is associated with this path already.
    AlreadyAssociated(String),
    /// No project is associated with this path.
    NotFound(String),
}

/// The id of a project association made with this random UUID text.
pub open spec fn project_id_for(uuid: Seq<char>) -> Seq<char> {
    "proj-"@ + uuid
}

/// The name a project at `path` is given: the one asked for, or else the
/// name of the directory the path names.
pub open spec fn project_name_for(path: Seq<char>, name: Option<Seq<char>>) -> Seq<char> {
    match name {
        Some(n) => n,
        None => dir_name(path),
    }
}

/// `p` is the association of `path` with `plan_id` that was appended to
/// `before` to give `after`, named as [`project_name_for`] says.
pub open spec fn associated_as(
    before: Seq<ProjectView>,
    after: Seq<ProjectView>,
    p: ProjectView,
    path: Seq<char>,
    plan_id: Seq<char>,
    name: Option<Seq<char>>,
) -> bool {
    &&& p.path == path
    &&& p.name == project_name_for(path, name)
    &&& p.associated_plan == plan_id
    &&& after == before.push(p)
}

/// Operations on the stored project associations. Each works on the list as
/// loaded; storing it again is left to the caller.
pub struct ProjectService;

impl ProjectService {
    /// The id of a project association made with this random UUID text.
    pub fn project_id_from_uuid(uuid: &str) -> (r: String)
        ensures
            r@ == project_id_for(uuid@),
    {
        concat_str("proj-", uuid)
    }

    /// Associates the directory at `path` with the plan `plan_id`, refused
    /// where the path has an association already. The association gets a
    /// fresh random id.
    pub fn associate_project(
        projects: &mut Projects,
        path: &str,
        plan_id: &str,
        name: Option<String>,
    ) -> (r: Result<Project, ProjectError>)
        ensures
            match project_index(old(projects)@, path@) {
                Some(_) => r matches Err(ProjectError::AlreadyAssociated(e)) && e@ == path@
                    && final(projects)@ == old(projects)@,
                None => r matches Ok(p) && {
                    &&& p@.id.len() == 37
                    &&& p@.id.subrange(0, 5) == "proj-"@
                    &&& is_simple_uuid_v4(p@.id.subrange(5, 37))
                    &&& associated_as(old(projects)@, final(projects)@, p@, path@, plan_id@, opt_view(name))
                },
            },
    {
        if projects.get_project(path).is_some() {
            return Err(ProjectError::AlreadyAssociated(String::from_str(path)));
        }
        let uuid = new_uuid_simple();
        let id = Self::project_id_from_uuid(uuid.as_str());
        proof {
            reveal_strlit("proj-");
            assert(id@.subrange(0, 5) =~= "proj-"@);
            assert(id@.subrange(5, 37) =~= uuid@);
        }
        Self::associate_project_with_id(projects, id, path, plan_id, name)
    }

    /// Associates the directory at `path` with the plan `plan_id` under the
    /// id `id`, refused where the path has an association already.
    pub fn associate_project_with_id(
        projects: &mut Projects,
        id: String,
        path: &str,
        plan_id: &str,
        name: Option<String>,
    ) -> (r: Result<Project, ProjectError>)
        ensures
            match project_index(old(projects)@, path@) {
                Some(_) => r matches Err(ProjectError::AlreadyAssociated(e)) && e@ == path@
                    && final(projects)@ == old(projects)@,
                None => r matches Ok(p) && p@.id == id@ && associated_as(
                    old(projects)@,
                    final(projects)@,
                    p@,
                    path@,
                    plan_id@,
                    opt_view(name),
                ),
            },
    {
        if projects.get_project(path).is_some() {
            return Err(ProjectError::AlreadyAssociated(String::from_str(path)));
        }
        let project_name = match name {
            Some(n) => n,
            None => dir_name_of(path),
        };
        let project = Project {
            id,
            path: String::from_str(path),
            name: project_name,
            associated_plan: String::from_str(plan_id),
            created_at: current_time(),
        };
        projects.add_project(project.clone());
        Ok(project)
    }

    /// Removes the association of the directory at `path`.
    pub fn dissociate_project(projects: &mut Projects, path: &str) -> (r: Result<(), ProjectError>)
        ensures
            match project_index(old(projects)@, path@) {
                Some(i) => r is Ok && final(projects)@ == old(projects)@.remove(i),
                None => r matches Err(ProjectError::NotFound(e)) && e@ == path@
                    && final(projects)@ == old(projects)@,
            },
    {
        match projects.remove_project(path) {
            Some(_) => Ok(()),
            None => Err(ProjectError::NotFound(String::from_str(path))),
        }
    }

    /// All project associations.
    pub fn list_projects(projects: &Projects) -> (r: Vec<Project>)
        ensures
            r@.map_values(|p: Project| p@) == projects@,
    {
        let all = projects.list_all();
        let mut r: Vec<Project> = Vec::new();
        let mut i: usize = 0;
        while i < all.len()
            invariant
                i <= all@.len(),
                all@.map_values(|p: Project| p@) == projects@,
                r@.len() == i,
                forall|j: int| 0 <= j < i ==> (#[trigger] r@[j])@ == projects@[j],
            decreases all.len() - i,
        {
            r.push(all[i].clone());
            i = i + 1;
        }
        assert(r@.map_values(|p: Project| p@) =~= projects@);
        r
    }

    /// The association of the directory at `path`.
    pub fn get_project(projects: &Projects, path: &str) -> (r: Result<Project, ProjectError>)
        ensures
            match project_lookup(projects@, path@) {
                Some(p) => r matches Ok(q) && q@ == p,
                None => r matches Err(ProjectError::NotFound(e)) && e@ == path@,
            },
    {
        match projects.get_project(path) {
            Some(p) => Ok(p.clone()),
            None => Err(ProjectError::NotFound(String::from_str(path))),
        }
    }
}

// ---------------------------------------------------------------------------
// Laws
// ---------------------------------------------------------------------------

/// Associating a path that has no association keeps every path associated
/// at most once.
pub proof fn law_associate_keeps_paths_unique(s: Seq<ProjectView>, p: ProjectView)
    requires
        paths_unique(s),
        project_index(s, p.path) is None,
    ensures
        paths_unique(s.push(p)),
{
    lemma_first_index(project_paths(s), p.path);
    let t = s.push(p);
    assert forall|i: int, j: int|
        0 <= i < t.len() && 0 <= j < t.len() && i != j implies #[trigger] t[i].path
        != #[trigger] t[j].path by {
        if i == s.len() {
            assert(project_paths(s)[j] == s[j].path);
        } else if j == s.len() {
            assert(project_paths(s)[i] == s[i].path);
        }
    }
}

/// A project associated with a path is the one found at that path
/// afterwards.
pub proof fn law_associated_project_found(s: Seq<ProjectView>, p: ProjectView)
    requires
        project_index(s, p.path) is None,
    ensures
        project_lookup(s.push(p), p.path) == Some(p),
{
    lemma_first_index(project_paths(s), p.path);
    assert(project_paths(s.push(p)) =~= project_paths(s).push(p.path));
    lemma_first_index_at(project_paths(s.push(p)), p.path, s.len() as int);
}

/// Where paths are associated at most once, a dissociated path has no
/// association afterwards.
pub proof fn law_dissociated_project_gone(s: Seq<ProjectView>, i: int)
    requires
        0 <= i < s.len(),
        paths_unique(s),
    ensures
        project_lookup(s.remove(i), s[i].path) is None,
        paths_unique(s.remove(i)),
{
    let rest = s.remove(i);
    assert forall|j: int| 0 <= j < rest.len() implies project_paths(rest)[j] != s[i].path by {
        let j2 = if j < i { j } else { j + 1 };
        assert(rest[j] == s[j2]);
    }
    lemma_first_index_none(project_paths(rest), s[i].path);
    assert forall|a: int, b: int|
        0 <= a < rest.len() && 0 <= b < rest.len() && a != b implies #[trigger] rest[a].path
        != #[trigger] rest[b].path by {
        let a2 = if a < i { a } else { a + 1 };
        let b2 = if b < i { b } else { b + 1 };
        assert(rest[a] == s[a2]);
        assert(rest[b] == s[b2]);
    }
}

/// A project's default name is the name of the directory its path names,
/// the whole last `'/'`-separated segment of the path: it holds no `'/'`, in
/// the path it is followed by nothing but slashes, and it either starts the
/// path or comes just after a `'/'`.
pub proof fn law_default_name_is_directory_name(path: Seq<char>)
    ensures
        forall|k: int|
            0 <= k < project_name_for(path, None).len() ==> #[trigger] project_name_for(
                path,
                None,
            )[k] != '/',
        ({
            let e = slashes_end(path, path.len() as int);
            &&& path.subrange(e - project_name_for(path, None).len(), e) == project_name_for(path, None)
            &&& forall|k: int| e <= k < path.len() ==> #[trigger] path[k] == '/'
            &&& (project_name_for(path, None).len() > 0 ==> path[e - 1] != '/')
            &&& e - project_name_for(path, None).len() >= 0
            &&& (e - project_name_for(path, None).len() == 0 || path[e - project_name_for(
                path,
                None,
            ).len() - 1] == '/')
        }),
{
    lemma_slashes_end(path, path.len() as int);
    let e: int = slashes_end(path, path.len() as int);
    lemma_segment_start(path, e);
    let n = project_name_for(path, None);
    let a: int = segment_start(path, e);
    assert forall|k: int| 0 <= k < n.len() implies #[trigger] n[k] != '/' by {
        assert(n[k] == path[a + k]);
    }
}

} // verus!
