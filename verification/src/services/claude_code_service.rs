//! The coding assistant's own settings: the environment entries through
//! which it learns the API key and base URL in use.
use vstd::prelude::*;

use crate::models::{lemma_first_index, lemma_first_index_at, lemma_first_index_none};
use crate::storage::config_dir::{path_join, path_join_spec};
use crate::text::str_eq;

verus! {

/// Where the settings file lies, relative to the home directory.
pub const CLAUDE_SETTINGS_FILE: &'static str = ".code-assistant/settings.json";

/// The environment entry that holds the API key.
pub open spec fn token_key() -> Seq<char> {
    "ANTHROPIC_AUTH_TOKEN"@
}

/// The environment entry that holds the API base URL.
pub open spec fn base_url_key() -> Seq<char> {
    "ANTHROPIC_BASE_URL"@
}

/// Stored entries with text values, as plain texts.
pub open spec fn env_view(s: Seq<(String, String)>) -> Seq<(Seq<char>, Seq<char>)> {
    s.map_values(|p: (String, String)| (p.0@, p.1@))
}

/// Stored plugin flags, as plain values.
pub open spec fn plugins_view(s: Seq<(String, bool)>) -> Seq<(Seq<char>, bool)> {
    s.map_values(|p: (String, bool)| (p.0@, p.1))
}

/// The keys of stored entries, as plain texts, in order.
pub open spec fn raw_keys<V>(s: Seq<(String, V)>) -> Seq<Seq<char>> {
    s.map_values(|p: (String, V)| p.0@)
}

/// The keys of a list of keyed entries, in order.
pub open spec fn env_keys<V>(e: Seq<(Seq<char>, V)>) -> Seq<Seq<char>> {
    e.map_values(|p: (Seq<char>, V)| p.0)
}

/// The value of `k` in a list of keyed entries.
pub open spec fn env_get<V>(e: Seq<(Seq<char>, V)>, k: Seq<char>) -> Option<V> {
    match env_keys(e).index_of_first(k) {
        Some(i) => Some(e[i].1),
        None => None,
    }
}

/// The entries with `k` set to `v`: in place where `k` is there, at the end
/// where it is not.
pub open spec fn env_insert<V>(e: Seq<(Seq<char>, V)>, k: Seq<char>, v: V) -> Seq<(Seq<char>, V)> {
    match env_keys(e).index_of_first(k) {
        Some(i) => e.update(i, (k, v)),
        None => e.push((k, v)),
    }
}

/// Whether an entry is not for the key `k`.
pub open spec fn key_is_not<V>(k: Seq<char>) -> spec_fn((Seq<char>, V)) -> bool {
    |p: (Seq<char>, V)| p.0 != k
}

/// The entries without `k`.
pub open spec fn env_remove<V>(e: Seq<(Seq<char>, V)>, k: Seq<char>) -> Seq<(Seq<char>, V)> {
    e.filter(key_is_not(k))
}

/// No key occurs twice, as in a map.
pub open spec fn keys_unique<V>(e: Seq<(Seq<char>, V)>) -> bool {
    forall|i: int, j: int| 0 <= i < j < e.len() ==> #[trigger] e[i].0 != #[trigger] e[j].0
}

/// What setting each entry of `s` in turn leaves, starting from none: a
/// later entry for a key replaces an earlier one, as in a map.
pub open spec fn env_from<V>(s: Seq<(Seq<char>, V)>) -> Seq<(Seq<char>, V)>
    decreases s.len(),
{
    if s.len() == 0 {
        Seq::empty()
    } else {
        env_insert(env_from(s.drop_last()), s.last().0, s.last().1)
    }
}

/// The assistant's settings: its environment entries and its plugin flags,
/// each a map from names, so that no name occurs twice in either.
pub struct ClaudeSettings {
    env: Vec<(String, String)>,
    enabled_plugins: Option<Vec<(String, bool)>>,
}

/// What a [`ClaudeSettings`] holds, as plain values.
pub struct ClaudeSettingsView {
    pub env: Seq<(Seq<char>, Seq<char>)>,
    pub plugins: Option<Seq<(Seq<char>, bool)>>,
}

impl View for ClaudeSettings {
    type V = ClaudeSettingsView;

    closed spec fn view(&self) -> ClaudeSettingsView {
        ClaudeSettingsView {
            env: env_view(self.env@),
            plugins: match self.enabled_plugins {
                Some(v) => Some(plugins_view(v@)),
                None => None,
            },
        }
    }
}

impl ClaudeSettings {
    #[verifier::type_invariant]
    spec fn names_unique(self) -> bool {
        &&& keys_unique(self@.env)
        &&& self@.plugins matches Some(p) ==> keys_unique(p)
    }
}

impl Default for ClaudeSettings {
    fn default() -> (r: Self)
        ensures
            r@.env == Seq::<(Seq<char>, Seq<char>)>::empty(),
            r@.plugins is None,
    {
        let r = ClaudeSettings { env: Vec::new(), enabled_plugins: None };
        assert(r@.env =~= Seq::<(Seq<char>, Seq<char>)>::empty());
        r
    }
}

/// Where `k` first stands among stored entries.
fn find_key<V>(entries: &Vec<(String, V)>, k: &str) -> (r: Option<usize>)
    ensures
        r matches Some(i) ==> i < entries@.len() && raw_keys(entries@).index_of_first(k@) == Some(
            i as int,
        ),
        r is None ==> raw_keys(entries@).index_of_first(k@) is None,
{
    let ghost keys = raw_keys(entries@);
    let mut i: usize = 0;
    while i < entries.len()
        invariant
            i <= entries@.len(),
            keys == raw_keys(entries@),
            forall|j: int| 0 <= j < i ==> keys[j] != k@,
        decreases entries.len() - i,
    {
        if str_eq(entries[i].0.as_str(), k) {
            proof {
                lemma_first_index_at(keys, k@, i as int);
            }
            return Some(i);
        }
        i = i + 1;
    }
    proof {
        lemma_first_index_none(keys, k@);
    }
    None
}

/// Sets the entry `k` to `v` among stored entries with text values.
fn env_set(entries: &mut Vec<(String, String)>, k: &str, v: &str)
    ensures
        env_view(final(entries)@) == env_insert(env_view(old(entries)@), k@, v@),
{
    assert(env_keys(env_view(entries@)) =~= raw_keys(entries@));
    match find_key(entries, k) {
        Some(i) => {
            entries.set(i, (String::from_str(k), String::from_str(v)));
        },
        None => {
            entries.push((String::from_str(k), String::from_str(v)));
        },
    }
    assert(env_view(entries@) =~= env_insert(env_view(old(entries)@), k@, v@));
}

/// Sets the plugin flag `k` to `v` among stored flags.
fn plugin_set(entries: &mut Vec<(String, bool)>, k: &str, v: bool)
    ensures
        plugins_view(final(entries)@) == env_insert(plugins_view(old(entries)@), k@, v),
{
    assert(env_keys(plugins_view(entries@)) =~= raw_keys(entries@));
    match find_key(entries, k) {
        Some(i) => {
            entries.set(i, (String::from_str(k), v));
        },
        None => {
            entries.push((String::from_str(k), v));
        },
    }
    assert(plugins_view(entries@) =~= env_insert(plugins_view(old(entries)@), k@, v));
}

/// The entries with text values that setting each of `entries` in turn
/// leaves.
fn env_collect(entries: &Vec<(String, String)>) -> (r: Vec<(String, String)>)
    ensures
        env_view(r@) == env_from(env_view(entries@)),
        keys_unique(env_view(r@)),
{
    let ghost s = env_view(entries@);
    let mut out: Vec<(String, String)> = Vec::new();
    let mut i: usize = 0;
    assert(env_view(out@) =~= env_from(s.take(0)));
    while i < entries.len()
        invariant
            i <= entries@.len(),
            s == env_view(entries@),
            env_view(out@) == env_from(s.take(i as int)),
            keys_unique(env_view(out@)),
        decreases entries.len() - i,
    {
        let ghost before = env_view(out@);
        env_set(&mut out, entries[i].0.as_str(), entries[i].1.as_str());
        proof {
            assert(s.take(i + 1).drop_last() =~= s.take(i as int));
            lemma_insert_keeps_keys_unique(before, s[i as int].0, s[i as int].1);
        }
        i = i + 1;
    }
    assert(s.take(i as int) =~= s);
    out
}

/// The plugin flags that setting each of `entries` in turn leaves.
fn plugins_collect(entries: &Vec<(String, bool)>) -> (r: Vec<(String, bool)>)
    ensures
        plugins_view(r@) == env_from(plugins_view(entries@)),
        keys_unique(plugins_view(r@)),
{
    let ghost s = plugins_view(entries@);
    let mut out: Vec<(String, bool)> = Vec::new();
    let mut i: usize = 0;
    assert(plugins_view(out@) =~= env_from(s.take(0)));
    while i < entries.len()
        invariant
            i <= entries@.len(),
            s == plugins_view(entries@),
            plugins_view(out@) == env_from(s.take(i as int)),
            keys_unique(plugins_view(out@)),
        decreases entries.len() - i,
    {
        let ghost before = plugins_view(out@);
        plugin_set(&mut out, entries[i].0.as_str(), entries[i].1);
        proof {
            assert(s.take(i + 1).drop_last() =~= s.take(i as int));
            lemma_insert_keeps_keys_unique(before, s[i as int].0, s[i as int].1);
        }
        i = i + 1;
    }
    assert(s.take(i as int) =~= s);
    out
}

impl ClaudeSettings {
    /// Settings with these environment entries and plugin flags, read in
    /// order: where a name comes twice, the later entry stands, as in a map.
    pub fn from_entries(env: Vec<(String, String)>, enabled_plugins: Option<Vec<(String, bool)>>) -> (r: Self)
        ensures
            r@.env == env_from(env_view(env@)),
            r@.plugins == match enabled_plugins {
                Some(p) => Some(env_from(plugins_view(p@))),
                None => None,
            },
    {
        let e = env_collect(&env);
        let p = match enabled_plugins {
            Some(v) => Some(plugins_collect(&v)),
            None => None,
        };
        ClaudeSettings { env: e, enabled_plugins: p }
    }

    /// The environment entries, in order.
    pub fn env_entries(&self) -> (r: Vec<(String, String)>)
        ensures
            env_view(r@) == self@.env,
    {
        let mut out: Vec<(String, String)> = Vec::new();
        let mut i: usize = 0;
        while i < self.env.len()
            invariant
                i <= self.env@.len(),
                env_view(out@) == env_view(self.env@).take(i as int),
            decreases self.env.len() - i,
        {
            let ghost before = env_view(out@);
            let name = self.env[i].0.clone();
            let value = self.env[i].1.clone();
            out.push((name, value));
            assert(env_view(out@) =~= before.push(env_view(self.env@)[i as int]));
            assert(env_view(out@) =~= env_view(self.env@).take(i + 1));
            i = i + 1;
        }
        assert(env_view(self.env@).take(i as int) =~= env_view(self.env@));
        out
    }

    /// The plugin flags, in order, where there are any.
    pub fn plugin_entries(&self) -> (r: Option<Vec<(String, bool)>>)
        ensures
            match self@.plugins {
                Some(p) => r matches Some(v) && plugins_view(v@) == p,
                None => r is None,
            },
    {
        match &self.enabled_plugins {
            None => None,
            Some(v) => {
                let mut out: Vec<(String, bool)> = Vec::new();
                let mut i: usize = 0;
                while i < v.len()
                    invariant
                        i <= v@.len(),
                        plugins_view(out@) == plugins_view(v@).take(i as int),
                    decreases v.len() - i,
                {
                    let ghost before = plugins_view(out@);
                    let name = v[i].0.clone();
                    out.push((name, v[i].1));
                    assert(plugins_view(out@) =~= before.push(plugins_view(v@)[i as int]));
                    assert(plugins_view(out@) =~= plugins_view(v@).take(i + 1));
                    i = i + 1;
                }
                assert(plugins_view(v@).take(i as int) =~= plugins_view(v@));
                Some(out)
            },
        }
    }

    /// Sets the entry `k` to `v`.
    pub fn set_env(&mut self, k: &str, v: &str)
        ensures
            final(self)@.env == env_insert(old(self)@.env, k@, v@),
            final(self)@.plugins == old(self)@.plugins,
    {
        proof {
            use_type_invariant(&*self);
        }
        let mut env: Vec<(String, String)> = Vec::new();
        std::mem::swap(&mut env, &mut self.env);
        let ghost before = env_view(env@);
        env_set(&mut env, k, v);
        proof {
            lemma_insert_keeps_keys_unique(before, k@, v@);
        }
        self.env = env;
    }

    /// The value of the entry `k`.
    pub fn get_env(&self, k: &str) -> (r: Option<String>)
        ensures
            match env_get(self@.env, k@) {
                Some(v) => r matches Some(s) && s@ == v,
                None => r is None,
            },
    {
        assert(env_keys(self@.env) =~= raw_keys(self.env@));
        match find_key(&self.env, k) {
            Some(i) => Some(self.env[i].1.clone()),
            None => None,
        }
    }

    /// Removes the entry `k`.
    pub fn remove_env(&mut self, k: &str)
        ensures
            final(self)@.env == env_remove(old(self)@.env, k@),
            final(self)@.plugins == old(self)@.plugins,
    {
        proof {
            use_type_invariant(&*self);
        }
        let ghost e = old(self)@.env;
        let mut kept: Vec<(String, String)> = Vec::new();
        let mut i: usize = 0;
        while i < self.env.len()
            invariant
                i <= self.env@.len(),
                e == env_view(self.env@),
                env_view(kept@) == e.take(i as int).filter(key_is_not(k@)),
            decreases self.env.len() - i,
        {
            let ghost before = env_view(kept@);
            proof {
                reveal_with_fuel(Seq::<_>::filter, 1);
                assert(e.take(i + 1).drop_last() =~= e.take(i as int));
            }
            if !str_eq(self.env[i].0.as_str(), k) {
                let entry = (self.env[i].0.clone(), self.env[i].1.clone());
                kept.push(entry);
                assert(env_view(kept@) =~= before.push(e[i as int]));
            }
            i = i + 1;
        }
        assert(e.take(i as int) =~= e);
        proof {
            lemma_remove_keeps_keys_unique(e, k@);
        }
        self.env = kept;
    }

    /// Points the assistant at this API key and base URL.
    pub fn set_api_config(&mut self, api_key: &str, base_url: &str)
        ensures
            final(self)@.env == env_insert(
                env_insert(old(self)@.env, token_key(), api_key@),
                base_url_key(),
                base_url@,
            ),
            final(self)@.plugins == old(self)@.plugins,
    {
        self.set_env("ANTHROPIC_AUTH_TOKEN", api_key);
        self.set_env("ANTHROPIC_BASE_URL", base_url);
    }

    /// The API key and base URL the assistant is pointed at, where both are
    /// set.
    pub fn get_api_config(&self) -> (r: Option<(String, String)>)
        ensures
            match (env_get(self@.env, token_key()), env_get(self@.env, base_url_key())) {
                (Some(key), Some(url)) => r matches Some((a, b)) && a@ == key && b@ == url,
                _ => r is None,
            },
    {
        let key = self.get_env("ANTHROPIC_AUTH_TOKEN");
        let url = self.get_env("ANTHROPIC_BASE_URL");
        match (key, url) {
            (Some(a), Some(b)) => Some((a, b)),
            _ => None,
        }
    }

    /// Forgets the API key and base URL.
    pub fn clear_api_config(&mut self)
        ensures
            final(self)@.env == env_remove(
                env_remove(old(self)@.env, token_key()),
                base_url_key(),
            ),
            final(self)@.plugins == old(self)@.plugins,
    {
        self.remove_env("ANTHROPIC_AUTH_TOKEN");
        self.remove_env("ANTHROPIC_BASE_URL");
    }
}

/// The link between the stored API configurations and the assistant's
/// settings. Each works on the settings as loaded; storing them again is
/// left to the caller.
pub struct ClaudeCodeService;

impl ClaudeCodeService {
    /// Points the settings at this API key and base URL.
    pub fn sync_api_config(settings: &mut ClaudeSettings, api_key: &str, base_url: &str)
        ensures
            final(settings)@.env == env_insert(
                env_insert(old(settings)@.env, token_key(), api_key@),
                base_url_key(),
                base_url@,
            ),
            final(settings)@.plugins == old(settings)@.plugins,
    {
        settings.set_api_config(api_key, base_url);
    }

    /// The API key and base URL the settings point at, where both are set.
    pub fn get_current_config(settings: &ClaudeSettings) -> (r: Option<(String, String)>)
        ensures
            match (env_get(settings@.env, token_key()), env_get(settings@.env, base_url_key())) {
                (Some(key), Some(url)) => r matches Some((a, b)) && a@ == key && b@ == url,
                _ => r is None,
            },
    {
        settings.get_api_config()
    }

    /// Removes the API key and base URL from the settings.
    pub fn clear_config(settings: &mut ClaudeSettings)
        ensures
            final(settings)@.env == env_remove(
                env_remove(old(settings)@.env, token_key()),
                base_url_key(),
            ),
            final(settings)@.plugins == old(settings)@.plugins,
    {
        settings.clear_api_config();
    }

    /// The settings file of the user whose home directory is `home`.
    pub fn get_settings_path(home: &str) -> (r: String)
        ensures
            r@ == path_join_spec(home@, CLAUDE_SETTINGS_FILE@),
    {
        path_join(home, CLAUDE_SETTINGS_FILE)
    }
}

// ---------------------------------------------------------------------------
// Laws
// ---------------------------------------------------------------------------

proof fn lemma_keys_differ()
    ensures
        token_key() != base_url_key(),
{
    reveal_strlit("ANTHROPIC_AUTH_TOKEN");
    reveal_strlit("ANTHROPIC_BASE_URL");
    assert(token_key()[10] != base_url_key()[10]);
}

/// Reading an entry of an environment with one more entry at its end.
pub proof fn lemma_env_get_push<V>(e: Seq<(Seq<char>, V)>, x: (Seq<char>, V), k: Seq<char>)
    ensures
        env_get(e.push(x), k) == match env_get(e, k) {
            Some(v) => Some(v),
            None => if x.0 == k {
                Some(x.1)
            } else {
                None
            },
        },
{
    let keys = env_keys(e);
    assert(env_keys(e.push(x)) =~= keys.push(x.0));
    lemma_first_index(keys, k);
    lemma_first_index(keys.push(x.0), k);
    match keys.index_of_first(k) {
        Some(i) => {
            lemma_first_index_at(keys.push(x.0), k, i);
            assert(e.push(x)[i] == e[i]);
        },
        None => {
            if x.0 == k {
                lemma_first_index_at(keys.push(x.0), k, e.len() as int);
            } else {
                lemma_first_index_none(keys.push(x.0), k);
            }
        },
    }
}

/// An entry that was just set reads back as set, and every other entry
/// reads as before.
pub proof fn law_env_get_after_insert<V>(
    e: Seq<(Seq<char>, V)>,
    k: Seq<char>,
    v: V,
    other: Seq<char>,
)
    requires
        other != k,
    ensures
        env_get(env_insert(e, k, v), k) == Some(v),
        env_get(env_insert(e, k, v), other) == env_get(e, other),
{
    let keys = env_keys(e);
    lemma_first_index(keys, k);
    match keys.index_of_first(k) {
        Some(i) => {
            let e2 = e.update(i, (k, v));
            assert(env_keys(e2) =~= keys);
            lemma_first_index(keys, other);
            if let Some(j) = keys.index_of_first(other) {
                assert(j != i);
            }
        },
        None => {
            lemma_env_get_push(e, (k, v), k);
            lemma_env_get_push(e, (k, v), other);
        },
    }
}

/// Entries read in order, as [`ClaudeSettings::from_entries`] reads them,
/// give each name the value of the last entry for it, and no value to a
/// name that no entry has.
pub proof fn law_later_entry_stands<V>(s: Seq<(Seq<char>, V)>, k: Seq<char>)
    ensures
        (forall|j: int| 0 <= j < s.len() ==> (#[trigger] s[j]).0 != k) ==> env_get(env_from(s), k)
            is None,
        forall|j: int|
            0 <= j < s.len() && (#[trigger] s[j]).0 == k && (forall|j2: int|
                j < j2 < s.len() ==> s[j2].0 != k) ==> env_get(env_from(s), k) == Some(s[j].1),
    decreases s.len(),
{
    if s.len() == 0 {
        lemma_first_index_none(env_keys(env_from(s)), k);
    } else {
        let s0 = s.drop_last();
        let x = s.last();
        law_later_entry_stands(s0, k);
        assert(env_from(s) == env_insert(env_from(s0), x.0, x.1));
        if x.0 == k {
            assert(k.push('a').len() != k.len());
            law_env_get_after_insert(env_from(s0), k, x.1, k.push('a'));
            assert forall|j: int|
                0 <= j < s.len() && (#[trigger] s[j]).0 == k && (forall|j2: int|
                    j < j2 < s.len() ==> s[j2].0 != k) implies env_get(env_from(s), k) == Some(
                s[j].1,
            ) by {
                if j < s.len() - 1 {
                    assert(s[s.len() - 1].0 != k);
                }
            }
        } else {
            law_env_get_after_insert(env_from(s0), x.0, x.1, k);
            assert forall|j: int|
                0 <= j < s.len() && (#[trigger] s[j]).0 == k && (forall|j2: int|
                    j < j2 < s.len() ==> s[j2].0 != k) implies env_get(env_from(s), k) == Some(
                s[j].1,
            ) by {
                assert(j < s.len() - 1);
                assert(s0[j] == s[j]);
                assert forall|j2: int| j < j2 < s0.len() implies s0[j2].0 != k by {
                    assert(s0[j2] == s[j2]);
                }
            }
            if forall|j: int| 0 <= j < s.len() ==> (#[trigger] s[j]).0 != k {
                assert forall|j: int| 0 <= j < s0.len() implies (#[trigger] s0[j]).0 != k by {
                    assert(s0[j] == s[j]);
                }
            }
        }
    }
}

/// Setting an entry keeps keys unique.
pub proof fn lemma_insert_keeps_keys_unique<V>(e: Seq<(Seq<char>, V)>, k: Seq<char>, v: V)
    ensures
        keys_unique(e) ==> keys_unique(env_insert(e, k, v)),
{
    lemma_first_index(env_keys(e), k);
    if keys_unique(e) {
        let e2 = env_insert(e, k, v);
        assert forall|i: int, j: int| 0 <= i < j < e2.len() implies #[trigger] e2[i].0
            != #[trigger] e2[j].0 by {
            match env_keys(e).index_of_first(k) {
                Some(m) => {
                    assert(env_keys(e)[m] == k);
                    assert(e[i].0 != e[j].0);
                },
                None => {
                    if j == e.len() {
                        assert(env_keys(e)[i] != k);
                    } else {
                        assert(e[i].0 != e[j].0);
                    }
                },
            }
        }
    }
}

/// Removing a key keeps keys unique.
pub proof fn lemma_remove_keeps_keys_unique<V>(e: Seq<(Seq<char>, V)>, k: Seq<char>)
    ensures
        keys_unique(e) ==> keys_unique(env_remove(e, k)),
    decreases e.len(),
{
    if keys_unique(e) && e.len() > 0 {
        let e0 = e.drop_last();
        let x = e.last();
        assert(e0.push(x) =~= e);
        assert(keys_unique(e0));
        lemma_remove_keeps_keys_unique(e0, k);
        reveal_with_fuel(Seq::<_>::filter, 1);
        if x.0 != k {
            let f0 = env_remove(e0, k);
            assert forall|j: int| 0 <= j < e0.len() implies env_keys(e0)[j] != x.0 by {
                assert(e[j].0 != e[e0.len() as int].0);
            }
            lemma_first_index_none(env_keys(e0), x.0);
            law_env_get_after_remove(e0, k, x.0);
            lemma_first_index(env_keys(f0), x.0);
            let f = f0.push(x);
            assert forall|i: int, j: int| 0 <= i < j < f.len() implies #[trigger] f[i].0
                != #[trigger] f[j].0 by {
                if j == f0.len() {
                    assert(env_keys(f0)[i] != x.0);
                } else {
                    assert(f0[i].0 != f0[j].0);
                }
            }
        }
    } else if e.len() == 0 {
        reveal_with_fuel(Seq::<_>::filter, 1);
    }
}

/// No entry is left for a removed key, and every other entry reads as
/// before.
pub proof fn law_env_get_after_remove<V>(e: Seq<(Seq<char>, V)>, k: Seq<char>, other: Seq<char>)
    requires
        other != k,
    ensures
        env_get(env_remove(e, k), k) is None,
        env_get(env_remove(e, k), other) == env_get(e, other),
    decreases e.len(),
{
    let f = env_remove(e, k);
    assert forall|j: int| 0 <= j < f.len() implies env_keys(f)[j] != k by {
        e.lemma_filter_pred(key_is_not(k), j);
    }
    lemma_first_index_none(env_keys(f), k);
    if e.len() > 0 {
        let e0 = e.drop_last();
        let x = e.last();
        assert(e0.push(x) =~= e);
        law_env_get_after_remove(e0, k, other);
        reveal_with_fuel(Seq::<_>::filter, 1);
        lemma_env_get_push(e0, x, other);
        if x.0 != k {
            lemma_env_get_push(env_remove(e0, k), x, other);
        }
    } else {
        reveal_with_fuel(Seq::<_>::filter, 1);
    }
}

/// After the settings are pointed at a key and base URL, they report exactly
/// that key and base URL, and every other entry reads as before.
pub proof fn law_settings_read_after_sync(
    e: Seq<(Seq<char>, Seq<char>)>,
    key: Seq<char>,
    url: Seq<char>,
    other: Seq<char>,
)
    requires
        other != token_key(),
        other != base_url_key(),
    ensures
        ({
            let e2 = env_insert(env_insert(e, token_key(), key), base_url_key(), url);
            &&& env_get(e2, token_key()) == Some(key)
            &&& env_get(e2, base_url_key()) == Some(url)
            &&& env_get(e2, other) == env_get(e, other)
        }),
{
    lemma_keys_differ();
    let e1 = env_insert(e, token_key(), key);
    law_env_get_after_insert(e, token_key(), key, base_url_key());
    law_env_get_after_insert(e, token_key(), key, other);
    law_env_get_after_insert(e1, base_url_key(), url, token_key());
    law_env_get_after_insert(e1, base_url_key(), url, other);
}

/// After the settings forget the key and base URL, they report none, and
/// every other entry reads as before.
pub proof fn law_settings_cleared(e: Seq<(Seq<char>, Seq<char>)>, other: Seq<char>)
    requires
        other != token_key(),
        other != base_url_key(),
    ensures
        ({
            let e2 = env_remove(env_remove(e, token_key()), base_url_key());
            &&& env_get(e2, token_key()) is None
            &&& env_get(e2, base_url_key()) is None
            &&& env_get(e2, other) == env_get(e, other)
        }),
{
    lemma_keys_differ();
    let e1 = env_remove(e, token_key());
    law_env_get_after_remove(e, token_key(), base_url_key());
    law_env_get_after_remove(e, token_key(), other);
    law_env_get_after_remove(e1, base_url_key(), token_key());
    law_env_get_after_remove(e1, base_url_key(), other);
}

} // verus!
