//! API configurations and the list that holds them.
use vstd::prelude::*;

use crate::clock::Timestamp;
use crate::models::{clone_opt, lemma_first_index_at, lemma_first_index_none, opt_view};
use crate::text::str_eq;

verus! {

/// One stored API configuration.
pub struct ApiConfig {
    pub id: String,
    pub name: String,
    pub api_key: String,
    pub base_url: String,
    pub model: Option<String>,
    pub is_active: bool,
    pub created_at: Timestamp,
    pub updated_at: Timestamp,
}

/// What an [`ApiConfig`] holds, as plain values.
pub struct ApiConfigView {
    pub id: Seq<char>,
    pub name: Seq<char>,
    pub api_key: Seq<char>,
    pub base_url: Seq<char>,
    pub model: Option<Seq<char>>,
    pub is_active: bool,
    pub created_at: Timestamp,
    pub updated_at: Timestamp,
}

impl View for ApiConfig {
    type V = ApiConfigView;

    open spec fn view(&self) -> ApiConfigView {
        ApiConfigView {
            id: self.id@,
            name: self.name@,
            api_key: self.api_key@,
            base_url: self.base_url@,
            model: opt_view(self.model),
            is_active: self.is_active,
            created_at: self.created_at,
            updated_at: self.updated_at,
        }
    }
}

impl ApiConfigView {
    /// The same configuration with its active flag set to `b`.
    pub open spec fn with_active(self, b: bool) -> ApiConfigView {
        ApiConfigView { is_active: b, ..self }
    }
}

impl Clone for ApiConfig {
    fn clone(&self) -> (r: Self)
        ensures
            r@ == self@,
    {
        ApiConfig {
            id: self.id.clone(),
            name: self.name.clone(),
            api_key: self.api_key.clone(),
            base_url: self.base_url.clone(),
            model: clone_opt(&self.model),
            is_active: self.is_active,
            created_at: self.created_at,
            updated_at: self.updated_at,
        }
    }
}

/// The ids of a list of configurations, in order.
pub open spec fn config_ids(s: Seq<ApiConfigView>) -> Seq<Seq<char>> {
    s.map_values(|c: ApiConfigView| c.id)
}

/// The names of a list of configurations, in order.
pub open spec fn config_names(s: Seq<ApiConfigView>) -> Seq<Seq<char>> {
    s.map_values(|c: ApiConfigView| c.name)
}

/// The active flags of a list of configurations, in order.
pub open spec fn config_flags(s: Seq<ApiConfigView>) -> Seq<bool> {
    s.map_values(|c: ApiConfigView| c.is_active)
}

/// Where the first configuration with this id stands.
pub open spec fn config_index(s: Seq<ApiConfigView>, id: Seq<char>) -> Option<int> {
    config_ids(s).index_of_first(id)
}

/// Where the first active configuration stands.
pub open spec fn active_index(s: Seq<ApiConfigView>) -> Option<int> {
    config_flags(s).index_of_first(true)
}

/// `s` with every configuration inactive except the one at `target`.
pub open spec fn activate_only(s: Seq<ApiConfigView>, target: Option<int>) -> Seq<ApiConfigView> {
    Seq::new(s.len(), |j: int| s[j].with_active(target == Some(j)))
}

/// No two configurations are active at once.
pub open spec fn at_most_one_active(s: Seq<ApiConfigView>) -> bool {
    forall|i: int, j: int|
        0 <= i < s.len() && 0 <= j < s.len() && #[trigger] s[i].is_active && #[trigger] s[j].is_active
            ==> i == j
}

/// The stored API configurations, in the order in which they were added.
pub struct ApiConfigs {
    pub configs: Vec<ApiConfig>,
}

impl View for ApiConfigs {
    type V = Seq<ApiConfigView>;

    open spec fn view(&self) -> Seq<ApiConfigView> {
        self.configs@.map_values(|c: ApiConfig| c@)
    }
}

impl ApiConfigs {
    /// An empty list.
    pub fn new() -> (r: Self)
        ensures
            r@ == Seq::<ApiConfigView>::empty(),
    {
        let r = Self { configs: Vec::new() };
        assert(r@ =~= Seq::<ApiConfigView>::empty());
        r
    }

    /// Appends a configuration.
    pub fn add_config(&mut self, config: ApiConfig)
        ensures
            final(self)@ == old(self)@.push(config@),
    {
        self.configs.push(config);
        assert(self@ =~= old(self)@.push(config@));
    }

    /// Where the first configuration with this id stands.
    pub fn find_index(&self, id: &str) -> (r: Option<usize>)
        ensures
            r matches Some(i) ==> config_index(self@, id@) == Some(i as int) && i
                < self.configs@.len(),
            r is None ==> config_index(self@, id@) is None,
    {
        let mut i: usize = 0;
        while i < self.configs.len()
            invariant
                i <= self.configs@.len(),
                forall|j: int| 0 <= j < i ==> config_ids(self@)[j] != id@,
            decreases self.configs.len() - i,
        {
            if str_eq(self.configs[i].id.as_str(), id) {
                proof {
                    lemma_first_index_at(config_ids(self@), id@, i as int);
                }
                return Some(i);
            }
            i = i + 1;
        }
        proof {
            lemma_first_index_none(config_ids(self@), id@);
        }
        None
    }

    /// The first configuration with this id.
    pub fn get_config(&self, id: &str) -> (r: Option<&ApiConfig>)
        ensures
            match config_index(self@, id@) {
                Some(i) => r matches Some(c) && c@ == self@[i],
                None => r is None,
            },
    {
        match self.find_index(id) {
            Some(i) => Some(&self.configs[i]),
            None => None,
        }
    }

    /// The first active configuration.
    pub fn get_active_config(&self) -> (r: Option<&ApiConfig>)
        ensures
            match active_index(self@) {
                Some(i) => r matches Some(c) && c@ == self@[i],
                None => r is None,
            },
    {
        let mut i: usize = 0;
        while i < self.configs.len()
            invariant
                i <= self.configs@.len(),
                forall|j: int| 0 <= j < i ==> config_flags(self@)[j] != true,
            decreases self.configs.len() - i,
        {
            if self.configs[i].is_active {
                proof {
                    lemma_first_index_at(config_flags(self@), true, i as int);
                }
                return Some(&self.configs[i]);
            }
            i = i + 1;
        }
        proof {
            lemma_first_index_none(config_flags(self@), true);
        }
        None
    }

    /// Takes out the first configuration with this id.
    pub fn remove_config(&mut self, id: &str) -> (r: Option<ApiConfig>)
        ensures
            match config_index(old(self)@, id@) {
                Some(i) => r matches Some(c) && c@ == old(self)@[i] && final(self)@ == old(
                    self,
                )@.remove(i),
                None => r is None && final(self)@ == old(self)@,
            },
    {
        match self.find_index(id) {
            Some(i) => {
                let c = self.configs.remove(i);
                assert(self@ =~= old(self)@.remove(i as int));
                Some(c)
            },
            None => None,
        }
    }

    /// Makes the first configuration with this id the only active one; where
    /// there is none, every configuration is left inactive and the answer is
    /// `false`.
    pub fn activate_config(&mut self, id: &str) -> (found: bool)
        ensures
            found == (config_index(old(self)@, id@) is Some),
            final(self)@ == activate_only(old(self)@, config_index(old(self)@, id@)),
    {
        let ghost target = config_index(old(self)@, id@);
        let mut i: usize = 0;
        while i < self.configs.len()
            invariant
                i <= self.configs@.len(),
                self.configs@.len() == old(self).configs@.len(),
                forall|j: int|
                    0 <= j < i ==> (#[trigger] self.configs@[j])@ == old(self).configs@[j]@.with_active(
                        false,
                    ),
                forall|j: int|
                    i <= j < self.configs@.len() ==> #[trigger] self.configs@[j] == old(
                        self,
                    ).configs@[j],
            decreases self.configs.len() - i,
        {
            self.configs[i].is_active = false;
            i = i + 1;
        }
        assert(config_ids(self@) =~= config_ids(old(self)@));
        match self.find_index(id) {
            Some(k) => {
                self.configs[k].is_active = true;
                assert(self@ =~= activate_only(old(self)@, target));
                true
            },
            None => {
                assert(self@ =~= activate_only(old(self)@, target));
                false
            },
        }
    }
}

} // verus!
