//! Development plans, their steps, and the snapshots kept of earlier versions.
use vstd::prelude::*;

use crate::clock::{current_time, Timestamp};
use crate::models::{clone_opt, lemma_first_index_at, lemma_first_index_none, opt_view};
use crate::text::{clone_strings, str_eq, strings_view};

verus! {

/// The ordered steps of a plan.
pub struct PlanContent {
    pub steps: Vec<String>,
}

impl View for PlanContent {
    type V = Seq<Seq<char>>;

    open spec fn view(&self) -> Seq<Seq<char>> {
        strings_view(self.steps@)
    }
}

impl PlanContent {
    /// No steps.
    pub fn new() -> (r: Self)
        ensures
            r@ == Seq::<Seq<char>>::empty(),
    {
        let r = Self { steps: Vec::new() };
        assert(r@ =~= Seq::<Seq<char>>::empty());
        r
    }

    /// Appends a step.
    pub fn push_step(&mut self, step: String)
        ensures
            final(self)@ == old(self)@.push(step@),
    {
        self.steps.push(step);
        assert(self@ =~= old(self)@.push(step@));
    }
}

impl Clone for PlanContent {
    fn clone(&self) -> (r: Self)
        ensures
            r@ == self@,
    {
        PlanContent { steps: clone_strings(&self.steps) }
    }
}

/// The tags of a plan.
pub struct PlanTags {
    pub tags: Vec<String>,
}

impl View for PlanTags {
    type V = Seq<Seq<char>>;

    open spec fn view(&self) -> Seq<Seq<char>> {
        strings_view(self.tags@)
    }
}

impl PlanTags {
    /// No tags.
    pub fn new() -> (r: Self)
        ensures
            r@ == Seq::<Seq<char>>::empty(),
    {
        let r = Self { tags: Vec::new() };
        assert(r@ =~= Seq::<Seq<char>>::empty());
        r
    }
}

impl Clone for PlanTags {
    fn clone(&self) -> (r: Self)
        ensures
            r@ == self@,
    {
        PlanTags { tags: clone_strings(&self.tags) }
    }
}

/// A development plan.
pub struct Plan {
    pub id: String,
    pub name: String,
    pub description: String,
    pub content: PlanContent,
    pub template_ref: Option<String>,
    pub current_version: u32,
    pub created_at: Timestamp,
    pub updated_at: Timestamp,
    pub tags: PlanTags,
}

/// What a [`Plan`] holds, as plain values.
pub struct PlanView {
    pub id: Seq<char>,
    pub name: Seq<char>,
    pub description: Seq<char>,
    pub content: Seq<Seq<char>>,
    pub template_ref: Option<Seq<char>>,
    pub current_version: u32,
    pub created_at: Timestamp,
    pub updated_at: Timestamp,
    pub tags: Seq<Seq<char>>,
}

impl View for Plan {
    type V = PlanView;

    open spec fn view(&self) -> PlanView {
        PlanView {
            id: self.id@,
            name: self.name@,
            description: self.description@,
            content: self.content@,
            template_ref: opt_view(self.template_ref),
            current_version: self.current_version,
            created_at: self.created_at,
            updated_at: self.updated_at,
            tags: self.tags@,
        }
    }
}

impl Clone for Plan {
    fn clone(&self) -> (r: Self)
        ensures
            r@ == self@,
    {
        Plan {
            id: self.id.clone(),
            name: self.name.clone(),
            description: self.description.clone(),
            content: self.content.clone(),
            template_ref: clone_opt(&self.template_ref),
            current_version: self.current_version,
            created_at: self.created_at,
            updated_at: self.updated_at,
            tags: self.tags.clone(),
        }
    }
}

/// The ids of a list of plans, in order.
pub open spec fn plan_ids(s: Seq<PlanView>) -> Seq<Seq<char>> {
    s.map_values(|p: PlanView| p.id)
}

/// Where the first plan with this id stands.
pub open spec fn plan_index(s: Seq<PlanView>, id: Seq<char>) -> Option<int> {
    plan_ids(s).index_of_first(id)
}

/// The first plan with this id.
pub open spec fn plan_lookup(s: Seq<PlanView>, id: Seq<char>) -> Option<PlanView> {
    match plan_index(s, id) {
        Some(i) => Some(s[i]),
        None => None,
    }
}

/// All stored plans, in the order in which they were created.
pub struct Plans {
    pub plans: Vec<Plan>,
}

impl View for Plans {
    type V = Seq<PlanView>;

    open spec fn view(&self) -> Seq<PlanView> {
        self.plans@.map_values(|p: Plan| p@)
    }
}

impl Plans {
    /// No plans.
    pub fn new() -> (r: Self)
        ensures
            r@ == Seq::<PlanView>::empty(),
    {
        let r = Self { plans: Vec::new() };
        assert(r@ =~= Seq::<PlanView>::empty());
        r
    }

    /// Appends a plan.
    pub fn add_plan(&mut self, plan: Plan)
        ensures
            final(self)@ == old(self)@.push(plan@),
    {
        self.plans.push(plan);
        assert(self@ =~= old(self)@.push(plan@));
    }

    /// Where the first plan with this id stands.
    pub fn find_index(&self, id: &str) -> (r: Option<usize>)
        ensures
            r matches Some(i) ==> plan_index(self@, id@) == Some(i as int) && i
                < self.plans@.len(),
            r is None ==> plan_index(self@, id@) is None,
    {
        let mut i: usize = 0;
        while i < self.plans.len()
            invariant
                i <= self.plans@.len(),
                forall|j: int| 0 <= j < i ==> plan_ids(self@)[j] != id@,
            decreases self.plans.len() - i,
        {
            if str_eq(self.plans[i].id.as_str(), id) {
                proof {
                    lemma_first_index_at(plan_ids(self@), id@, i as int);
                }
                return Some(i);
            }
            i = i + 1;
        }
        proof {
            lemma_first_index_none(plan_ids(self@), id@);
        }
        None
    }

    /// The first plan with this id.
    pub fn get_plan(&self, id: &str) -> (r: Option<&Plan>)
        ensures
            match plan_lookup(self@, id@) {
                Some(p) => r matches Some(q) && q@ == p,
                None => r is None,
            },
    {
        match self.find_index(id) {
            Some(i) => Some(&self.plans[i]),
            None => None,
        }
    }

    /// The first plan with this id, to be changed in place.
    pub fn get_plan_mut(&mut self, id: &str) -> (r: Option<&mut Plan>)
        ensures
            match plan_index(old(self)@, id@) {
                Some(i) => r matches Some(q) && (*q)@ == old(self)@[i] && final(self)@ == old(
                    self,
                )@.update(i, (*final(q))@),
                None => r is None && final(self)@ == old(self)@,
            },
    {
        match self.find_index(id) {
            Some(i) => {
                let q = &mut self.plans[i];
                Some(q)
            },
            None => None,
        }
    }

    /// Takes out the first plan with this id.
    pub fn remove_plan(&mut self, id: &str) -> (r: Option<Plan>)
        ensures
            match plan_index(old(self)@, id@) {
                Some(i) => r matches Some(p) && p@ == old(self)@[i] && final(self)@ == old(
                    self,
                )@.remove(i),
                None => r is None && final(self)@ == old(self)@,
            },
    {
        match self.find_index(id) {
            Some(i) => {
                let p = self.plans.remove(i);
                assert(self@ =~= old(self)@.remove(i as int));
                Some(p)
            },
            None => None,
        }
    }
}

/// The content of a plan as it stood at one version.
pub struct PlanSnapshot {
    pub id: String,
    pub version: u32,
    pub content: PlanContent,
    pub created_at: Timestamp,
}

/// What a [`PlanSnapshot`] holds, as plain values.
pub struct PlanSnapshotView {
    pub id: Seq<char>,
    pub version: u32,
    pub content: Seq<Seq<char>>,
    pub created_at: Timestamp,
}

impl View for PlanSnapshot {
    type V = PlanSnapshotView;

    open spec fn view(&self) -> PlanSnapshotView {
        PlanSnapshotView {
            id: self.id@,
            version: self.version,
            content: self.content@,
            created_at: self.created_at,
        }
    }
}

impl PlanSnapshot {
    /// A snapshot of `content` as version `version` of plan `id`, taken now.
    pub fn new(id: String, version: u32, content: PlanContent) -> (r: Self)
        ensures
            r.id@ == id@,
            r.version == version,
            r.content@ == content@,
    {
        Self { id, version, content, created_at: current_time() }
    }
}

} // verus!
