//! Local project directories and the plans they are associated with.
use vstd::prelude::*;

use crate::clock::Timestamp;
use crate::models::{lemma_first_index_at, lemma_first_index_none};
use crate::text::str_eq;

verus! {

/// A project directory associated with a plan.
pub struct Project {
    pub id: String,
    pub path: String,
    pub name: String,
    pub associated_plan: String,
    pub created_at: Timestamp,
}

/// What a [`Project`] holds, as plain values.
pub struct ProjectView {
    pub id: Seq<char>,
    pub path: Seq<char>,
    pub name: Seq<char>,
    pub associated_plan: Seq<char>,
    pub created_at: Timestamp,
}

impl View for Project {
    type V = ProjectView;

    open spec fn view(&self) -> ProjectView {
        ProjectView {
            id: self.id@,
            path: self.path@,
            name: self.name@,
            associated_plan: self.associated_plan@,
            created_at: self.created_at,
        }
    }
}

impl Clone for Project {
    fn clone(&self) -> (r: Self)
        ensures
            r@ == self@,
    {
        Project {
            id: self.id.clone(),
            path: self.path.clone(),
            name: self.name.clone(),
            associated_plan: self.associated_plan.clone(),
            created_at: self.created_at,
        }
    }
}

/// The paths of a list of projects, in order.
pub open spec fn project_paths(s: Seq<ProjectView>) -> Seq<Seq<char>> {
    s.map_values(|p: ProjectView| p.path)
}

/// Where the first project at this path stands.
pub open spec fn project_index(s: Seq<ProjectView>, path: Seq<char>) -> Option<int> {
    project_paths(s).index_of_first(path)
}

/// The first project at this path.
pub open spec fn project_lookup(s: Seq<ProjectView>, path: Seq<char>) -> Option<ProjectView> {
    match project_index(s, path) {
        Some(i) => Some(s[i]),
        None => None,
    }
}

/// No two projects share a path.
pub open spec fn paths_unique(s: Seq<ProjectView>) -> bool {
    forall|i: int, j: int|
        0 <= i < s.len() && 0 <= j < s.len() && i != j ==> #[trigger] s[i].path != #[trigger] s[j].path
}

/// All project associations, in the order in which they were made.
pub struct Projects {
    pub projects: Vec<Project>,
}

impl View for Projects {
    type V = Seq<ProjectView>;

    open spec fn view(&self) -> Seq<ProjectView> {
        self.projects@.map_values(|p: Project| p@)
    }
}

impl Projects {
    /// No projects.
    pub fn new() -> (r: Self)
        ensures
            r@ == Seq::<ProjectView>::empty(),
    {
        let r = Self { projects: Vec::new() };
        assert(r@ =~= Seq::<ProjectView>::empty());
        r
    }

    /// Appends a project.
    pub fn add_project(&mut self, project: Project)
        ensures
            final(self)@ == old(self)@.push(project@),
    {
        self.projects.push(project);
        assert(self@ =~= old(self)@.push(project@));
    }

    /// Where the first project at this path stands.
    pub fn find_index(&self, path: &str) -> (r: Option<usize>)
        ensures
            r matches Some(i) ==> project_index(self@, path@) == Some(i as int) && i
                < self.projects@.len(),
            r is None ==> project_index(self@, path@) is None,
    {
        let mut i: usize = 0;
        while i < self.projects.len()
            invariant
                i <= self.projects@.len(),
                forall|j: int| 0 <= j < i ==> project_paths(self@)[j] != path@,
            decreases self.projects.len() - i,
        {
            if str_eq(self.projects[i].path.as_str(), path) {
                proof {
                    lemma_first_index_at(project_paths(self@), path@, i as int);
                }
                return Some(i);
            }
            i = i + 1;
        }
        proof {
            lemma_first_index_none(project_paths(self@), path@);
        }
        None
    }

    /// The first project at this path.
    pub fn get_project(&self, path: &str) -> (r: Option<&Project>)
        ensures
            match project_lookup(self@, path@) {
                Some(p) => r matches Some(q) && q@ == p,
                None => r is None,
            },
    {
        match self.find_index(path) {
            Some(i) => Some(&self.projects[i]),
            None => None,
        }
    }

    /// The first project at this path, to be changed in place.
    pub fn get_project_mut(&mut self, path: &str) -> (r: Option<&mut Project>)
        ensures
            match project_index(old(self)@, path@) {
                Some(i) => r matches Some(q) && (*q)@ == old(self)@[i] && final(self)@ == old(
                    self,
                )@.update(i, (*final(q))@),
                None => r is None && final(self)@ == old(self)@,
            },
    {
        match self.find_index(path) {
            Some(i) => {
                let q = &mut self.projects[i];
                Some(q)
            },
            None => None,
        }
    }

    /// Takes out the first project at this path.
    pub fn remove_project(&mut self, path: &str) -> (r: Option<Project>)
        ensures
            match project_index(old(self)@, path@) {
                Some(i) => r matches Some(p) && p@ == old(self)@[i] && final(self)@ == old(
                    self,
                )@.remove(i),
                None => r is None && final(self)@ == old(self)@,
            },
    {
        match self.find_index(path) {
            Some(i) => {
                let p = self.projects.remove(i);
                assert(self@ =~= old(self)@.remove(i as int));
                Some(p)
            },
            None => None,
        }
    }

    /// All projects.
    pub fn list_all(&self) -> (r: &[Project])
        ensures
            r@.map_values(|p: Project| p@) == self@,
    {
        self.projects.as_slice()
    }
}

} // verus!
