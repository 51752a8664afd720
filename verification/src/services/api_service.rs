//! Adding, activating and deleting API configurations.
use vstd::prelude::*;

use crate::clock::{current_time, Timestamp};
use crate::models::api_config::{
    activate_only, active_index, at_most_one_active, config_flags, config_ids, config_index,
    config_names, ApiConfig, ApiConfigView, ApiConfigs,
};
use crate::models::{lemma_first_index, lemma_first_index_at, lemma_first_index_none};
use crate::text::{
    first_word, first_word_of, is_ws, lemma_first_word_shape, lemma_skip_ws, lemma_word_end,
    lowercase, skip_ws, str_eq, to_lowercase,
};

verus! {

/// Why an API configuration operation was refused.
pub enum ApiError {
    /// A configuration with this name exists already.
    NameExists(String),
    /// No configuration has this id.
    NotFound(String),
    /// No configuration is active.
    NoActiveConfig,
}

/// What the assistant's own settings file should be told after an
/// operation on the configurations.
pub enum SettingsSync {
    /// Nothing.
    Unchanged,
    /// Use this key and base URL.
    Apply { api_key: String, base_url: String },
    /// Forget the key and base URL.
    Clear,
}

/// What a [`SettingsSync`] says, as plain values.
pub enum SyncAction {
    Unchanged,
    Apply(Seq<char>, Seq<char>),
    Clear,
}

impl View for SettingsSync {
    type V = SyncAction;

    open spec fn view(&self) -> SyncAction {
        match self {
            SettingsSync::Unchanged => SyncAction::Unchanged,
            SettingsSync::Apply { api_key, base_url } => SyncAction::Apply(api_key@, base_url@),
            SettingsSync::Clear => SyncAction::Clear,
        }
    }
}

/// The text whose lowercase form becomes the id of a configuration named
/// `name`: its first whitespace-separated word, or `"default"`.
pub open spec fn id_source(name: Seq<char>) -> Seq<char> {
    match first_word(name) {
        Some(w) => w,
        None => "default"@,
    }
}

/// The id given to a new configuration named `name`.
pub open spec fn config_id(name: Seq<char>) -> Seq<char> {
    lowercase(id_source(name))
}

/// `c` is the configuration named `name` with this key and base URL that was
/// appended to `before` to give `after`: active exactly when it is the first,
/// without a model, and the settings file is told of it exactly then.
pub open spec fn added_as(
    before: Seq<ApiConfigView>,
    after: Seq<ApiConfigView>,
    c: ApiConfigView,
    sync: SyncAction,
    name: Seq<char>,
    api_key: Seq<char>,
    base_url: Seq<char>,
) -> bool {
    &&& c.name == name
    &&& c.api_key == api_key
    &&& c.base_url == base_url
    &&& c.model is None
    &&& c.is_active == (before.len() == 0)
    &&& after == before.push(c)
    &&& sync == (if before.len() == 0 {
        SyncAction::Apply(api_key, base_url)
    } else {
        SyncAction::Unchanged
    })
}

/// The configurations after the one at `i` is deleted: where it was active,
/// the first remaining one is activated unless another is active already.
pub open spec fn configs_after_delete(s: Seq<ApiConfigView>, i: int) -> Seq<ApiConfigView> {
    let rest = s.remove(i);
    if s[i].is_active && active_index(rest) is None && rest.len() > 0 {
        activate_only(rest, Some(0))
    } else {
        rest
    }
}

/// What the settings file is told after the configuration at `i` is deleted.
pub open spec fn sync_after_delete(s: Seq<ApiConfigView>, i: int) -> SyncAction {
    let rest = s.remove(i);
    if !s[i].is_active {
        SyncAction::Unchanged
    } else {
        match active_index(rest) {
            Some(k) => SyncAction::Apply(rest[k].api_key, rest[k].base_url),
            None => if rest.len() > 0 {
                SyncAction::Apply(rest[0].api_key, rest[0].base_url)
            } else {
                SyncAction::Clear
            },
        }
    }
}

/// Operations on the stored API configurations. Each works on the list as
/// loaded; storing the list again, and telling the settings file, is left to
/// the caller.
pub struct ApiService;

impl ApiService {
    /// The text that, lowercased, becomes the id of a configuration named
    /// `name`.
    pub fn config_id_source(name: &str) -> (r: String)
        ensures
            r@ == id_source(name@),
    {
        match first_word_of(name) {
            Some(w) => w,
            None => String::from_str("default"),
        }
    }

    /// Whether some configuration has this name.
    pub fn name_taken(configs: &ApiConfigs, name: &str) -> (r: bool)
        ensures
            r == config_names(configs@).contains(name@),
    {
        let mut i: usize = 0;
        while i < configs.configs.len()
            invariant
                i <= configs.configs@.len(),
                forall|j: int| 0 <= j < i ==> config_names(configs@)[j] != name@,
            decreases configs.configs.len() - i,
        {
            if str_eq(configs.configs[i].name.as_str(), name) {
                assert(config_names(configs@)[i as int] == name@);
                return true;
            }
            i = i + 1;
        }
        false
    }

    /// Adds a configuration named `name`, refused where the name is taken.
    /// Its id is the lowercase first word of the name (`"default"` where the
    /// name has none); the first configuration stored becomes the active one,
    /// and only then is the settings file told of it.
    pub fn add_config(configs: &mut ApiConfigs, name: &str, api_key: &str, base_url: &str) -> (r:
        Result<(ApiConfig, SettingsSync), ApiError>)
        ensures
            if config_names(old(configs)@).contains(name@) {
                r matches Err(ApiError::NameExists(n)) && n@ == name@ && final(configs)@ == old(
                    configs,
                )@
            } else {
                r matches Ok((c, sync)) && c@.id == config_id(name@) && added_as(
                    old(configs)@,
                    final(configs)@,
                    c@,
                    sync@,
                    name@,
                    api_key@,
                    base_url@,
                )
            },
    {
        let source = Self::config_id_source(name);
        let id = to_lowercase(source.as_str());
        Self::add_config_with_id(configs, id, name, api_key, base_url)
    }

    /// Adds a configuration named `name` under the id `id`, refused where the
    /// name is taken; the first configuration stored becomes the active one,
    /// and only then is the settings file told of it.
    pub fn add_config_with_id(
        configs: &mut ApiConfigs,
        id: String,
        name: &str,
        api_key: &str,
        base_url: &str,
    ) -> (r: Result<(ApiConfig, SettingsSync), ApiError>)
        ensures
            if config_names(old(configs)@).contains(name@) {
                r matches Err(ApiError::NameExists(n)) && n@ == name@ && final(configs)@ == old(
                    configs,
                )@
            } else {
                r matches Ok((c, sync)) && c@.id == id@ && added_as(
                    old(configs)@,
                    final(configs)@,
                    c@,
                    sync@,
                    name@,
                    api_key@,
                    base_url@,
                )
            },
    {
        if Self::name_taken(configs, name) {
            return Err(ApiError::NameExists(String::from_str(name)));
        }
        let is_first = configs.configs.len() == 0;
        let config = ApiConfig {
            id,
            name: String::from_str(name),
            api_key: String::from_str(api_key),
            base_url: String::from_str(base_url),
            model: None,
            is_active: is_first,
            created_at: current_time(),
            updated_at: current_time(),
        };
        configs.add_config(config.clone());
        let sync = if is_first {
            SettingsSync::Apply {
                api_key: config.api_key.clone(),
                base_url: config.base_url.clone(),
            }
        } else {
            SettingsSync::Unchanged
        };
        Ok((config, sync))
    }

    /// All configurations.
    pub fn list_configs(configs: &ApiConfigs) -> (r: Vec<ApiConfig>)
        ensures
            r@.map_values(|c: ApiConfig| c@) == configs@,
    {
        let mut r: Vec<ApiConfig> = Vec::new();
        let mut i: usize = 0;
        while i < configs.configs.len()
            invariant
                i <= configs.configs@.len(),
                r@.len() == i,
                forall|j: int| 0 <= j < i ==> (#[trigger] r@[j])@ == configs@[j],
            decreases configs.configs.len() - i,
        {
            r.push(configs.configs[i].clone());
            i = i + 1;
        }
        assert(r@.map_values(|c: ApiConfig| c@) =~= configs@);
        r
    }

    /// The configuration with this id or, without an id, the active one.
    pub fn get_config(configs: &ApiConfigs, id: Option<&str>) -> (r: Result<ApiConfig, ApiError>)
        ensures
            id matches Some(k) ==> match config_index(configs@, k@) {
                Some(i) => r matches Ok(c) && c@ == configs@[i],
                None => r matches Err(ApiError::NotFound(e)) && e@ == k@,
            },
            id is None ==> match active_index(configs@) {
                Some(i) => r matches Ok(c) && c@ == configs@[i],
                None => r matches Err(ApiError::NoActiveConfig),
            },
    {
        match id {
            Some(k) => match configs.get_config(k) {
                Some(c) => Ok(c.clone()),
                None => Err(ApiError::NotFound(String::from_str(k))),
            },
            None => match configs.get_active_config() {
                Some(c) => Ok(c.clone()),
                None => Err(ApiError::NoActiveConfig),
            },
        }
    }

    /// Makes the configuration with this id the only active one, and has its
    /// key and base URL sent to the settings file.
    pub fn activate_config(configs: &mut ApiConfigs, id: &str) -> (r: Result<
        (ApiConfig, SettingsSync),
        ApiError,
    >)
        ensures
            match config_index(old(configs)@, id@) {
                Some(i) => r matches Ok((c, sync)) && {
                    &&& final(configs)@ == activate_only(old(configs)@, Some(i))
                    &&& c@ == old(configs)@[i].with_active(true)
                    &&& sync@ == SyncAction::Apply(c@.api_key, c@.base_url)
                },
                None => r matches Err(ApiError::NotFound(e)) && e@ == id@ && final(configs)@ == old(
                    configs,
                )@,
            },
    {
        if configs.find_index(id).is_none() {
            return Err(ApiError::NotFound(String::from_str(id)));
        }
        let found = configs.activate_config(id);
        let ghost i: int = config_index(old(configs)@, id@)->0;
        proof {
            lemma_first_index(config_ids(old(configs)@), id@);
            assert(config_ids(configs@) =~= config_ids(old(configs)@));
        }
        match configs.get_config(id) {
            Some(c) => {
                let config = c.clone();
                let sync = SettingsSync::Apply {
                    api_key: config.api_key.clone(),
                    base_url: config.base_url.clone(),
                };
                Ok((config, sync))
            },
            None => Err(ApiError::NotFound(String::from_str(id))),
        }
    }

    /// Deletes the configuration with this id. Where it was the active one,
    /// another takes its place (an active one that remains, or else the first
    /// that remains) and the settings file is told of it, or told to forget
    /// the key where none remains.
    pub fn delete_config(configs: &mut ApiConfigs, id: &str) -> (r: Result<SettingsSync, ApiError>)
        ensures
            match config_index(old(configs)@, id@) {
                Some(i) => r matches Ok(sync) && final(configs)@ == configs_after_delete(
                    old(configs)@,
                    i,
                ) && sync@ == sync_after_delete(old(configs)@, i),
                None => r matches Err(ApiError::NotFound(e)) && e@ == id@ && final(configs)@ == old(
                    configs,
                )@,
            },
    {
        let was_active = match configs.get_config(id) {
            Some(c) => c.is_active,
            None => {
                return Err(ApiError::NotFound(String::from_str(id)));
            },
        };
        let ghost i: int = config_index(old(configs)@, id@)->0;
        configs.remove_config(id);
        let ghost rest = configs@;
        assert(rest == old(configs)@.remove(i));
        assert(was_active == old(configs)@[i].is_active);
        if !was_active {
            return Ok(SettingsSync::Unchanged);
        }
        match configs.get_active_config() {
            Some(c) => {
                return Ok(
                    SettingsSync::Apply {
                        api_key: c.api_key.clone(),
                        base_url: c.base_url.clone(),
                    },
                );
            },
            None => {},
        }
        if configs.configs.len() == 0 {
            return Ok(SettingsSync::Clear);
        }
        let first_id = configs.configs[0].id.clone();
        proof {
            lemma_first_index_at(config_ids(rest), first_id@, 0);
        }
        configs.activate_config(first_id.as_str());
        assert(configs@.len() == rest.len());
        assert(configs.configs@.len() == configs@.len());
        assert(configs@ == configs_after_delete(old(configs)@, i));
        let c = &configs.configs[0];
        assert(c@ == configs@[0]);
        Ok(SettingsSync::Apply { api_key: c.api_key.clone(), base_url: c.base_url.clone() })
    }

    /// No configurations at all.
    pub fn clear_all() -> (r: ApiConfigs)
        ensures
            r@ == Seq::<ApiConfigView>::empty(),
    {
        ApiConfigs::new()
    }
}

// ---------------------------------------------------------------------------
// Laws
// ---------------------------------------------------------------------------

/// Activating a configuration leaves it the only active one, and changes
/// nothing but the active flags.
pub proof fn law_activate_leaves_one_active(s: Seq<ApiConfigView>, i: int)
    requires
        0 <= i < s.len(),
    ensures
        at_most_one_active(activate_only(s, Some(i))),
        activate_only(s, Some(i))[i].is_active,
        activate_only(s, Some(i)).len() == s.len(),
        forall|j: int|
            0 <= j < s.len() ==> (#[trigger] activate_only(s, Some(i))[j]).with_active(false)
                == s[j].with_active(false),
{
}

/// Adding a configuration, which is active only when it is the first, keeps
/// at most one configuration active.
pub proof fn law_add_keeps_one_active(s: Seq<ApiConfigView>, c: ApiConfigView)
    requires
        at_most_one_active(s),
        c.is_active == (s.len() == 0),
    ensures
        at_most_one_active(s.push(c)),
{
    let t = s.push(c);
    assert forall|i: int, j: int|
        0 <= i < t.len() && 0 <= j < t.len() && #[trigger] t[i].is_active
            && #[trigger] t[j].is_active implies i == j by {
        if i < s.len() && j < s.len() {
            assert(s[i].is_active && s[j].is_active);
        }
    }
}

/// Deleting a configuration keeps at most one configuration active.
pub proof fn law_delete_keeps_one_active(s: Seq<ApiConfigView>, i: int)
    requires
        0 <= i < s.len(),
        at_most_one_active(s),
    ensures
        at_most_one_active(configs_after_delete(s, i)),
{
    let rest = s.remove(i);
    assert forall|a: int, b: int|
        0 <= a < rest.len() && 0 <= b < rest.len() && #[trigger] rest[a].is_active
            && #[trigger] rest[b].is_active implies a == b by {
        let a2 = if a < i { a } else { a + 1 };
        let b2 = if b < i { b } else { b + 1 };
        assert(rest[a] == s[a2]);
        assert(rest[b] == s[b2]);
        assert(s[a2].is_active && s[b2].is_active);
    }
    if s[i].is_active && active_index(rest) is None && rest.len() > 0 {
        law_activate_leaves_one_active(rest, 0);
    }
}

/// Deleting the active configuration, where others remain, leaves one of
/// them active.
pub proof fn law_delete_active_reactivates(s: Seq<ApiConfigView>, i: int)
    requires
        0 <= i < s.len(),
        s[i].is_active,
        s.len() > 1,
    ensures
        active_index(configs_after_delete(s, i)) is Some,
{
    let rest = s.remove(i);
    let after = configs_after_delete(s, i);
    lemma_first_index(config_flags(rest), true);
    if active_index(rest) is None {
        assert(after[0].is_active);
        assert(config_flags(after)[0] == true);
    } else {
        assert(after == rest);
    }
    lemma_first_index(config_flags(after), true);
}

/// Deleting the active configuration, where no other is active and others
/// remain, makes the first remaining configuration the only active one,
/// keeps every other as it was, in order, and tells the settings file the
/// key and base URL of that first remaining configuration.
pub proof fn law_delete_active_activates_first(s: Seq<ApiConfigView>, i: int)
    requires
        0 <= i < s.len(),
        s.len() > 1,
        s[i].is_active,
        forall|j: int| 0 <= j < s.len() && j != i ==> !(#[trigger] s[j]).is_active,
    ensures
        ({
            let after = configs_after_delete(s, i);
            let f: int = if i == 0 {
                1
            } else {
                0
            };
            &&& after.len() == s.len() - 1
            &&& after[0] == ApiConfigView { is_active: true, ..s[f] }
            &&& forall|j: int|
                1 <= j < after.len() ==> #[trigger] after[j] == (if j < i {
                    s[j]
                } else {
                    s[j + 1]
                }) && !after[j].is_active
            &&& sync_after_delete(s, i) == SyncAction::Apply(s[f].api_key, s[f].base_url)
        }),
{
    let rest = s.remove(i);
    let f: int = if i == 0 {
        1
    } else {
        0
    };
    assert(rest[0] == s[f]);
    assert forall|j: int| 0 <= j < rest.len() implies !(#[trigger] config_flags(rest)[j]) by {
        let j2 = if j < i {
            j
        } else {
            j + 1
        };
        assert(rest[j] == s[j2]);
    }
    lemma_first_index_none(config_flags(rest), true);
    let after = configs_after_delete(s, i);
    assert forall|j: int| 1 <= j < after.len() implies #[trigger] after[j] == (if j < i {
        s[j]
    } else {
        s[j + 1]
    }) && !after[j].is_active by {
        let j2 = if j < i {
            j
        } else {
            j + 1
        };
        assert(rest[j] == s[j2]);
        assert(!s[j2].is_active);
    }
}

/// Deleting the only configuration, when it is active, leaves none and
/// tells the settings file to forget the key and base URL.
pub proof fn law_delete_last_active_clears(s: Seq<ApiConfigView>)
    requires
        s.len() == 1,
        s[0].is_active,
    ensures
        configs_after_delete(s, 0).len() == 0,
        sync_after_delete(s, 0) == SyncAction::Clear,
{
    lemma_first_index_none(config_flags(s.remove(0)), true);
}

/// Deleting a configuration that is not active removes it and nothing else,
/// changes no flag, and leaves the settings file as it is.
pub proof fn law_delete_inactive_removes_only_it(s: Seq<ApiConfigView>, i: int)
    requires
        0 <= i < s.len(),
        !s[i].is_active,
    ensures
        configs_after_delete(s, i) == s.remove(i),
        sync_after_delete(s, i) == SyncAction::Unchanged,
{
}

/// The text that becomes a configuration's id is the whole first word of its
/// name: a stretch of non-whitespace, preceded in the name only by
/// whitespace and followed by whitespace or the end of the name. Where the
/// name holds no word, it is `"default"`. The returned index is where the
/// word starts.
pub proof fn law_id_source_is_first_word(name: Seq<char>) -> (a: int)
    ensures
        (forall|k: int| 0 <= k < name.len() ==> is_ws(#[trigger] name[k])) ==> id_source(name)
            == "default"@,
        !(forall|k: int| 0 <= k < name.len() ==> is_ws(#[trigger] name[k])) ==> ({
            let w = id_source(name);
            &&& 0 <= a
            &&& a + w.len() <= name.len()
            &&& forall|k: int| 0 <= k < a ==> is_ws(#[trigger] name[k])
            &&& name.subrange(a, a + w.len()) == w
            &&& forall|k: int| a <= k < a + w.len() ==> !is_ws(#[trigger] name[k])
            &&& (a + w.len() == name.len() || is_ws(name[a + w.len()]))
        }),
{
    lemma_skip_ws(name, 0);
    let a = skip_ws(name, 0);
    if a < name.len() {
        lemma_word_end(name, a);
    }
    a
}

/// After a deletion the settings file is told the key and base URL of the
/// configuration that is then active (or to forget them where none is).
pub proof fn law_delete_syncs_active(s: Seq<ApiConfigView>, i: int)
    requires
        0 <= i < s.len(),
        s[i].is_active,
    ensures
        match active_index(configs_after_delete(s, i)) {
            Some(k) => sync_after_delete(s, i) == SyncAction::Apply(
                configs_after_delete(s, i)[k].api_key,
                configs_after_delete(s, i)[k].base_url,
            ),
            None => sync_after_delete(s, i) == SyncAction::Clear,
        },
{
    let rest = s.remove(i);
    let after = configs_after_delete(s, i);
    lemma_first_index(config_flags(rest), true);
    if active_index(rest) is None && rest.len() > 0 {
        assert(config_flags(after)[0] == true);
        lemma_first_index_at(config_flags(after), true, 0);
    } else if active_index(rest) is None {
        lemma_first_index_none(config_flags(after), true);
    }
}

/// A configuration added under an id no other has is the one found by that
/// id afterwards.
pub proof fn law_added_config_found(s: Seq<ApiConfigView>, c: ApiConfigView)
    requires
        config_index(s, c.id) is None,
    ensures
        config_index(s.push(c), c.id) == Some(s.len() as int),
{
    lemma_first_index(config_ids(s), c.id);
    assert(config_ids(s.push(c)) =~= config_ids(s).push(c.id));
    lemma_first_index_at(config_ids(s.push(c)), c.id, s.len() as int);
}

/// Where no two configurations share an id, a deleted configuration is not
/// found afterwards.
pub proof fn law_deleted_config_gone(s: Seq<ApiConfigView>, i: int)
    requires
        0 <= i < s.len(),
        forall|a: int, b: int| 0 <= a < b < s.len() ==> #[trigger] s[a].id != #[trigger] s[b].id,
    ensures
        config_index(configs_after_delete(s, i), s[i].id) is None,
{
    let after = configs_after_delete(s, i);
    let rest = s.remove(i);
    assert forall|j: int| 0 <= j < after.len() implies config_ids(after)[j] != s[i].id by {
        let j2 = if j < i { j } else { j + 1 };
        assert(rest[j] == s[j2]);
        assert(after[j].id == rest[j].id);
    }
    lemma_first_index_none(config_ids(after), s[i].id);
}

/// The text whose lowercase form becomes a configuration's id is a single
/// word: not empty and free of whitespace.
pub proof fn law_id_source_is_one_word(name: Seq<char>)
    ensures
        id_source(name).len() > 0,
        forall|k: int| 0 <= k < id_source(name).len() ==> !is_ws(#[trigger] id_source(name)[k]),
{
    lemma_first_word_shape(name);
    if first_word(name) is None {
        reveal_strlit("default");
        assert forall|k: int| 0 <= k < id_source(name).len() implies !is_ws(
            #[trigger] id_source(name)[k],
        ) by {
            assert(id_source(name)[k] == "default"@[k]);
        }
    }
}

} // verus!
