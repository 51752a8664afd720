//! Creating plans, adding steps, and moving between versions.
use vstd::prelude::*;

use crate::clock::{current_time, Timestamp};
use crate::ids::{is_simple_uuid_v4, new_uuid_simple};
use crate::models::{lemma_first_index, lemma_first_index_at, lemma_first_index_none};
use crate::models::opt_view;
use crate::models::plan::{
    plan_ids, plan_index, plan_lookup, Plan, PlanContent, PlanSnapshot, PlanSnapshotView, PlanTags,
    PlanView, Plans,
};
use crate::models::template::{template_index, template_lookup, TemplateView, Templates};
use crate::services::template_service::law_added_template_found;
use crate::text::concat_str;

verus! {

/// Why a plan operation was refused.
pub enum PlanError {
    /// No plan has this id.
    NotFound(String),
    /// The plan has not reached this version yet.
    VersionNotFound { version: u32, current: u32 },
}

/// The id of a plan made with this random UUID text.
pub open spec fn plan_id_for(uuid: Seq<char>) -> Seq<char> {
    "plan-"@ + uuid
}

/// `p` is the plan named `name` that was appended to `before` to give
/// `after`: holding `steps`, at version 1, without tags; `snap` is the
/// snapshot of its first version.
pub open spec fn created_as(
    before: Seq<PlanView>,
    after: Seq<PlanView>,
    p: PlanView,
    snap: PlanSnapshotView,
    name: Seq<char>,
    template_ref: Option<Seq<char>>,
    description: Seq<char>,
    steps: Seq<Seq<char>>,
) -> bool {
    &&& p.name == name
    &&& p.description == description
    &&& p.content == steps
    &&& p.template_ref == template_ref
    &&& p.current_version == 1
    &&& p.tags == Seq::<Seq<char>>::empty()
    &&& snap.id == p.id
    &&& snap.version == 1
    &&& snap.content == steps
    &&& after == before.push(p)
}

/// The steps a new plan starts with: those of the template it names, where
/// one is given and stored under that id, and none otherwise.
pub open spec fn initial_steps(templates: Seq<TemplateView>, template_ref: Option<Seq<char>>) -> Seq<
    Seq<char>,
> {
    match template_ref {
        Some(t) => match template_lookup(templates, t) {
            Some(tv) => tv.content,
            None => Seq::<Seq<char>>::empty(),
        },
        None => Seq::<Seq<char>>::empty(),
    }
}

/// `s` saves plan `p` as it stands: its id, its current version and its
/// content.
pub open spec fn is_snapshot_of(s: PlanSnapshotView, p: PlanView) -> bool {
    &&& s.id == p.id
    &&& s.version == p.current_version
    &&& s.content == p.content
}

/// The saved versions of one plan, by version number, once `s` is saved too.
pub open spec fn record(store: Map<u32, Seq<Seq<char>>>, s: PlanSnapshotView) -> Map<
    u32,
    Seq<Seq<char>>,
> {
    store.insert(s.version, s.content)
}

/// Every version of `p` from 1 to its current one is saved, the current one
/// with the content `p` has.
pub open spec fn restorable(store: Map<u32, Seq<Seq<char>>>, p: PlanView) -> bool {
    &&& forall|v: u32| 1 <= v <= p.current_version ==> #[trigger] store.contains_key(v)
    &&& store.contains_key(p.current_version)
    &&& store[p.current_version] == p.content
}

/// `p` with its name and description replaced where new ones are given, last
/// changed at `at`.
pub open spec fn with_metadata(
    p: PlanView,
    name: Option<Seq<char>>,
    description: Option<Seq<char>>,
    at: Timestamp,
) -> PlanView {
    PlanView {
        name: match name {
            Some(n) => n,
            None => p.name,
        },
        description: match description {
            Some(d) => d,
            None => p.description,
        },
        updated_at: at,
        ..p
    }
}

/// `p` with `content` as its steps, one version further, last changed at `at`.
pub open spec fn next_version(p: PlanView, content: Seq<Seq<char>>, at: Timestamp) -> PlanView {
    PlanView {
        content: content,
        current_version: (p.current_version + 1) as u32,
        updated_at: at,
        ..p
    }
}

/// The versions that a plan at version `current` has had: 1 to `current`.
pub open spec fn versions_up_to(current: u32) -> Seq<u32> {
    Seq::new(current as nat, |k: int| (k + 1) as u32)
}

/// Whether a step may be added to the plan with this id without its version
/// number overflowing.
pub open spec fn can_advance(plans: Seq<PlanView>, id: Seq<char>) -> bool {
    plan_lookup(plans, id) matches Some(p) ==> p.current_version < u32::MAX
}

/// Operations on the stored plans. Each works on the plans as loaded; storing
/// them again, and writing the version snapshot that an operation hands back,
/// is left to the caller.
pub struct PlanService;

impl PlanService {
    /// The id of a plan made with this random UUID text.
    pub fn plan_id_from_uuid(uuid: &str) -> (r: String)
        ensures
            r@ == plan_id_for(uuid@),
    {
        concat_str("plan-", uuid)
    }

    /// The steps a new plan starts with (see [`initial_steps`]).
    pub fn template_steps(templates: &Templates, template_ref: &Option<String>) -> (r: PlanContent)
        ensures
            r@ == initial_steps(templates@, opt_view(*template_ref)),
    {
        match template_ref {
            Some(t) => match templates.get_template(t.as_str()) {
                Some(template) => template.content.clone(),
                None => PlanContent::new(),
            },
            None => PlanContent::new(),
        }
    }

    /// Creates a plan at version 1 with a fresh random id, its steps those of
    /// the template it names (none where it names none, or one that is not
    /// stored), and the snapshot of its first version.
    pub fn create_plan(
        plans: &mut Plans,
        templates: &Templates,
        name: &str,
        template_ref: Option<String>,
        description: String,
    ) -> (r: (Plan, PlanSnapshot))
        ensures
            r.0@.id.len() == 37,
            r.0@.id.subrange(0, 5) == "plan-"@,
            is_simple_uuid_v4(r.0@.id.subrange(5, 37)),
            created_as(
                old(plans)@,
                final(plans)@,
                r.0@,
                r.1@,
                name@,
                opt_view(template_ref),
                description@,
                initial_steps(templates@, opt_view(template_ref)),
            ),
    {
        let steps = Self::template_steps(templates, &template_ref);
        let uuid = new_uuid_simple();
        let id = Self::plan_id_from_uuid(uuid.as_str());
        proof {
            reveal_strlit("plan-");
            assert(id@.subrange(0, 5) =~= "plan-"@);
            assert(id@.subrange(5, 37) =~= uuid@);
        }
        Self::create_plan_with_id(plans, id, name, template_ref, description, steps)
    }

    /// Creates a plan at version 1 under the id `id`, starting with `steps`,
    /// and the snapshot of its first version.
    pub fn create_plan_with_id(
        plans: &mut Plans,
        id: String,
        name: &str,
        template_ref: Option<String>,
        description: String,
        steps: PlanContent,
    ) -> (r: (Plan, PlanSnapshot))
        ensures
            r.0@.id == id@,
            created_as(
                old(plans)@,
                final(plans)@,
                r.0@,
                r.1@,
                name@,
                opt_view(template_ref),
                description@,
                steps@,
            ),
    {
        let plan = Plan {
            id: id.clone(),
            name: String::from_str(name),
            description,
            content: steps,
            template_ref,
            current_version: 1,
            created_at: current_time(),
            updated_at: current_time(),
            tags: PlanTags::new(),
        };
        let snapshot = PlanSnapshot::new(id, 1, plan.content.clone());
        plans.add_plan(plan.clone());
        (plan, snapshot)
    }

    /// All plans.
    pub fn list_plans(plans: &Plans) -> (r: Vec<Plan>)
        ensures
            r@.map_values(|p: Plan| p@) == plans@,
    {
        let mut r: Vec<Plan> = Vec::new();
        let mut i: usize = 0;
        while i < plans.plans.len()
            invariant
                i <= plans.plans@.len(),
                r@.len() == i,
                forall|j: int| 0 <= j < i ==> (#[trigger] r@[j])@ == plans@[j],
            decreases plans.plans.len() - i,
        {
            r.push(plans.plans[i].clone());
            i = i + 1;
        }
        assert(r@.map_values(|p: Plan| p@) =~= plans@);
        r
    }

    /// The plan with this id.
    pub fn get_plan(plans: &Plans, plan_id: &str) -> (r: Result<Plan, PlanError>)
        ensures
            match plan_lookup(plans@, plan_id@) {
                Some(p) => r matches Ok(q) && q@ == p,
                None => r matches Err(PlanError::NotFound(e)) && e@ == plan_id@,
            },
    {
        match plans.get_plan(plan_id) {
            Some(p) => Ok(p.clone()),
            None => Err(PlanError::NotFound(String::from_str(plan_id))),
        }
    }

    /// Renames and/or redescribes the plan with this id.
    pub fn update_plan(
        plans: &mut Plans,
        plan_id: &str,
        name: Option<String>,
        description: Option<String>,
    ) -> (r: Result<Plan, PlanError>)
        ensures
            match plan_index(old(plans)@, plan_id@) {
                Some(i) => r matches Ok(p) && p@ == with_metadata(
                    old(plans)@[i],
                    opt_view(name),
                    opt_view(description),
                    p@.updated_at,
                ) && final(plans)@ == old(plans)@.update(i, p@),
                None => r matches Err(PlanError::NotFound(e)) && e@ == plan_id@ && final(plans)@
                    == old(plans)@,
            },
    {
        match plans.get_plan_mut(plan_id) {
            Some(plan) => {
                match name {
                    Some(new_name) => {
                        plan.name = new_name;
                    },
                    None => {},
                }
                match description {
                    Some(new_description) => {
                        plan.description = new_description;
                    },
                    None => {},
                }
                plan.updated_at = current_time();
                Ok(plan.clone())
            },
            None => Err(PlanError::NotFound(String::from_str(plan_id))),
        }
    }

    /// Appends a step to the plan with this id and moves it one version on.
    /// The two snapshots handed back save the plan as it was, under the
    /// version it had, and as it now is, under its new version.
    pub fn add_step(plans: &mut Plans, plan_id: &str, step_content: &str) -> (r: Result<
        (Plan, PlanSnapshot, PlanSnapshot),
        PlanError,
    >)
        requires
            can_advance(old(plans)@, plan_id@),
        ensures
            match plan_index(old(plans)@, plan_id@) {
                Some(i) => r matches Ok((p, before, after)) && {
                    &&& p@ == next_version(
                        old(plans)@[i],
                        old(plans)@[i].content.push(step_content@),
                        p@.updated_at,
                    )
                    &&& is_snapshot_of(before@, old(plans)@[i])
                    &&& is_snapshot_of(after@, p@)
                    &&& final(plans)@ == old(plans)@.update(i, p@)
                },
                None => r matches Err(PlanError::NotFound(e)) && e@ == plan_id@ && final(plans)@
                    == old(plans)@,
            },
    {
        proof {
            lemma_first_index(plan_ids(old(plans)@), plan_id@);
        }
        match plans.get_plan_mut(plan_id) {
            Some(plan) => {
                let snapshot = PlanSnapshot::new(
                    plan.id.clone(),
                    plan.current_version,
                    plan.content.clone(),
                );
                plan.content.push_step(String::from_str(step_content));
                plan.current_version = plan.current_version + 1;
                plan.updated_at = current_time();
                let current = PlanSnapshot::new(
                    plan.id.clone(),
                    plan.current_version,
                    plan.content.clone(),
                );
                Ok((plan.clone(), snapshot, current))
            },
            None => Err(PlanError::NotFound(String::from_str(plan_id))),
        }
    }

    /// Deletes the plan with this id.
    pub fn delete_plan(plans: &mut Plans, plan_id: &str) -> (r: Result<(), PlanError>)
        ensures
            match plan_index(old(plans)@, plan_id@) {
                Some(i) => r is Ok && final(plans)@ == old(plans)@.remove(i),
                None => r matches Err(PlanError::NotFound(e)) && e@ == plan_id@ && final(plans)@
                    == old(plans)@,
            },
    {
        match plans.remove_plan(plan_id) {
            Some(_) => Ok(()),
            None => Err(PlanError::NotFound(String::from_str(plan_id))),
        }
    }

    /// The versions that the plan with this id has had: 1 to its current one.
    pub fn get_version_history(plans: &Plans, plan_id: &str) -> (r: Result<Vec<u32>, PlanError>)
        ensures
            match plan_lookup(plans@, plan_id@) {
                Some(p) => r matches Ok(v) && v@ == versions_up_to(p.current_version),
                None => r matches Err(PlanError::NotFound(e)) && e@ == plan_id@,
            },
    {
        let plan = Self::get_plan(plans, plan_id)?;
        let mut versions: Vec<u32> = Vec::new();
        let mut n: u32 = 0;
        while n < plan.current_version
            invariant
                n <= plan.current_version,
                versions@ == versions_up_to(n),
            decreases plan.current_version - n,
        {
            versions.push(n + 1);
            n = n + 1;
            assert(versions@ =~= versions_up_to(n));
        }
        Ok(versions)
    }

    /// Checks that the plan with this id exists and has reached `version`,
    /// before that version's snapshot is read.
    pub fn validate_rollback(plans: &Plans, plan_id: &str, version: u32) -> (r: Result<(), PlanError>)
        ensures
            match plan_lookup(plans@, plan_id@) {
                Some(p) => if version > p.current_version {
                    r matches Err(PlanError::VersionNotFound { version: v, current: c })
                        && v == version && c == p.current_version
                } else {
                    r is Ok
                },
                None => r matches Err(PlanError::NotFound(e)) && e@ == plan_id@,
            },
    {
        match plans.get_plan(plan_id) {
            Some(p) => {
                if version > p.current_version {
                    Err(PlanError::VersionNotFound { version, current: p.current_version })
                } else {
                    Ok(())
                }
            },
            None => Err(PlanError::NotFound(String::from_str(plan_id))),
        }
    }

    /// Restores the plan with this id to `restored`, the content read from
    /// the snapshot of `version`, as a new version. The two snapshots handed
    /// back save the content being replaced, under the version the plan had,
    /// and the restored content, under its new version, so that every version
    /// stays restorable.
    pub fn rollback_plan(
        plans: &mut Plans,
        plan_id: &str,
        version: u32,
        restored: PlanContent,
    ) -> (r: Result<(Plan, PlanSnapshot, PlanSnapshot), PlanError>)
        requires
            can_advance(old(plans)@, plan_id@),
        ensures
            match plan_index(old(plans)@, plan_id@) {
                Some(i) => if version > old(plans)@[i].current_version {
                    r matches Err(PlanError::VersionNotFound { version: v, current: c })
                        && v == version && c == old(plans)@[i].current_version && final(plans)@
                        == old(plans)@
                } else {
                    r matches Ok((p, before, after)) && {
                        &&& p@ == next_version(old(plans)@[i], restored@, p@.updated_at)
                        &&& is_snapshot_of(before@, old(plans)@[i])
                        &&& is_snapshot_of(after@, p@)
                        &&& final(plans)@ == old(plans)@.update(i, p@)
                    }
                },
                None => r matches Err(PlanError::NotFound(e)) && e@ == plan_id@ && final(plans)@
                    == old(plans)@,
            },
    {
        proof {
            lemma_first_index(plan_ids(old(plans)@), plan_id@);
        }
        match plans.get_plan_mut(plan_id) {
            Some(plan) => {
                if version > plan.current_version {
                    return Err(
                        PlanError::VersionNotFound { version, current: plan.current_version },
                    );
                }
                let snapshot = PlanSnapshot::new(
                    plan.id.clone(),
                    plan.current_version,
                    plan.content.clone(),
                );
                plan.content = restored;
                plan.current_version = plan.current_version + 1;
                plan.updated_at = current_time();
                let current = PlanSnapshot::new(
                    plan.id.clone(),
                    plan.current_version,
                    plan.content.clone(),
                );
                Ok((plan.clone(), snapshot, current))
            },
            None => Err(PlanError::NotFound(String::from_str(plan_id))),
        }
    }
}

// ---------------------------------------------------------------------------
// Laws
// ---------------------------------------------------------------------------

/// Adding a step moves a plan exactly one version on and appends exactly that
/// step; nothing else about the plan but its change time changes.
pub proof fn law_step_advances_one_version(p: PlanView, step: Seq<char>, at: Timestamp)
    requires
        p.current_version < u32::MAX,
    ensures
        next_version(p, p.content.push(step), at).current_version == p.current_version + 1,
        next_version(p, p.content.push(step), at).content.len() == p.content.len() + 1,
        next_version(p, p.content.push(step), at).content.last() == step,
        next_version(p, p.content.push(step), at).content.drop_last() == p.content,
        next_version(p, p.content.push(step), at).id == p.id,
        next_version(p, p.content.push(step), at).name == p.name,
        next_version(p, p.content.push(step), at).description == p.description,
{
    assert(p.content.push(step).drop_last() =~= p.content);
}

/// Saving a new plan's first snapshot makes its version restorable.
pub proof fn law_created_plan_restorable(
    store: Map<u32, Seq<Seq<char>>>,
    p: PlanView,
    snap: PlanSnapshotView,
)
    requires
        p.current_version == 1,
        is_snapshot_of(snap, p),
    ensures
        restorable(record(store, snap), p),
{
}

/// Where every version of `p` is saved, saving the two snapshots that adding
/// a step or rolling back hands back (`p` as it was, and `q`, one version
/// on, as it now is) keeps every version restorable and changes no version
/// saved before.
pub proof fn law_saving_keeps_history(
    store: Map<u32, Seq<Seq<char>>>,
    p: PlanView,
    q: PlanView,
    before: PlanSnapshotView,
    after: PlanSnapshotView,
)
    requires
        restorable(store, p),
        q.current_version == p.current_version + 1,
        is_snapshot_of(before, p),
        is_snapshot_of(after, q),
    ensures
        restorable(record(record(store, before), after), q),
        forall|v: u32|
            1 <= v <= p.current_version ==> #[trigger] record(record(store, before), after)[v]
                == store[v],
{
    let s2 = record(record(store, before), after);
    assert forall|v: u32| 1 <= v <= q.current_version implies #[trigger] s2.contains_key(v) by {
        if v < q.current_version {
            assert(store.contains_key(v));
        }
    }
}

/// Where every version of `p` is saved, rolling back to any version the
/// history lists restores exactly the content saved for it, and leaves every
/// version restorable.
pub proof fn law_listed_versions_restorable(
    store: Map<u32, Seq<Seq<char>>>,
    p: PlanView,
    k: int,
    at: Timestamp,
    before: PlanSnapshotView,
    after: PlanSnapshotView,
)
    requires
        restorable(store, p),
        p.current_version < u32::MAX,
        0 <= k < versions_up_to(p.current_version).len(),
        is_snapshot_of(before, p),
        is_snapshot_of(
            after,
            next_version(p, store[versions_up_to(p.current_version)[k]], at),
        ),
    ensures
        ({
            let v = versions_up_to(p.current_version)[k];
            let q = next_version(p, store[v], at);
            &&& 1 <= v <= p.current_version
            &&& store.contains_key(v)
            &&& q.content == store[v]
            &&& restorable(record(record(store, before), after), q)
        }),
{
    let v = versions_up_to(p.current_version)[k];
    assert(store.contains_key(v));
    law_saving_keeps_history(store, p, next_version(p, store[v], at), before, after);
}

/// Updating a plan's name or description leaves its steps and version alone.
pub proof fn law_update_keeps_steps(
    p: PlanView,
    name: Option<Seq<char>>,
    description: Option<Seq<char>>,
    at: Timestamp,
)
    ensures
        with_metadata(p, name, description, at).content == p.content,
        with_metadata(p, name, description, at).current_version == p.current_version,
        with_metadata(p, name, description, at).id == p.id,
{
}

/// Updating a plan sets each field that is given, independently of the
/// other: a given name becomes the plan's name and a given description its
/// description, whether or not the other is given too; a field not given
/// stays as it was, and nothing else but the change time moves.
pub proof fn law_update_applies_each_given_field(
    p: PlanView,
    name: Option<Seq<char>>,
    description: Option<Seq<char>>,
    at: Timestamp,
)
    ensures
        ({
            let q = with_metadata(p, name, description, at);
            &&& (name matches Some(n) ==> q.name == n)
            &&& (name is None ==> q.name == p.name)
            &&& (description matches Some(d) ==> q.description == d)
            &&& (description is None ==> q.description == p.description)
            &&& q.updated_at == at
            &&& q == PlanView { name: q.name, description: q.description, updated_at: at, ..p }
        }),
{
}

/// Updating a plan's name or description leaves every saved version
/// restorable, with no snapshot to save.
pub proof fn law_update_keeps_history(
    store: Map<u32, Seq<Seq<char>>>,
    p: PlanView,
    name: Option<Seq<char>>,
    description: Option<Seq<char>>,
    at: Timestamp,
)
    requires
        restorable(store, p),
    ensures
        restorable(store, with_metadata(p, name, description, at)),
{
}

/// The version history of a plan lists each version from 1 to the current
/// one, once and in order.
pub proof fn law_history_lists_versions(current: u32)
    ensures
        versions_up_to(current).len() == current,
        forall|k: int| 0 <= k < current ==> #[trigger] versions_up_to(current)[k] == k + 1,
{
}

/// A plan added under an id no other plan has is the one found by that id
/// afterwards.
pub proof fn law_added_plan_found(s: Seq<PlanView>, p: PlanView)
    requires
        plan_index(s, p.id) is None,
    ensures
        plan_lookup(s.push(p), p.id) == Some(p),
{
    lemma_first_index(plan_ids(s), p.id);
    assert(plan_ids(s.push(p)) =~= plan_ids(s).push(p.id));
    lemma_first_index_at(plan_ids(s.push(p)), p.id, s.len() as int);
}

/// Where no two plans share an id, a deleted plan is not found afterwards.
pub proof fn law_deleted_plan_gone(s: Seq<PlanView>, i: int)
    requires
        0 <= i < s.len(),
        forall|a: int, b: int| 0 <= a < b < s.len() ==> #[trigger] s[a].id != #[trigger] s[b].id,
    ensures
        plan_lookup(s.remove(i), s[i].id) is None,
{
    let rest = s.remove(i);
    assert forall|j: int| 0 <= j < rest.len() implies plan_ids(rest)[j] != s[i].id by {
        let j2 = if j < i { j } else { j + 1 };
        assert(rest[j] == s[j2]);
    }
    lemma_first_index_none(plan_ids(rest), s[i].id);
}

/// Changing one plan in place leaves every other plan's lookup as it was,
/// where ids are not shared.
pub proof fn law_update_in_place_keeps_others(s: Seq<PlanView>, i: int, q: PlanView, id: Seq<char>)
    requires
        0 <= i < s.len(),
        q.id == s[i].id,
        id != s[i].id,
    ensures
        plan_lookup(s.update(i, q), id) == plan_lookup(s, id),
{
    assert(plan_ids(s.update(i, q)) =~= plan_ids(s));
    lemma_first_index(plan_ids(s), id);
    if let Some(k) = plan_index(s, id) {
        assert(plan_ids(s)[k] == s[k].id);
        assert(k != i);
    }
}

/// A plan created from a template that was just stored starts with exactly
/// that template's steps.
pub proof fn law_plan_from_new_template(templates: Seq<TemplateView>, t: TemplateView)
    requires
        template_index(templates, t.id) is None,
    ensures
        initial_steps(templates.push(t), Some(t.id)) == t.content,
{
    law_added_template_found(templates, t);
}

} // verus!
