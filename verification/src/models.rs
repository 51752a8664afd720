//! The stored records: API configurations, plans, projects and templates.
use vstd::prelude::*;

pub mod api_config;
pub mod plan;
pub mod project;
pub mod template;

verus! {

/// The view of an optional text.
pub open spec fn opt_view(o: Option<String>) -> Option<Seq<char>> {
    match o {
        Some(s) => Some(s@),
        None => None,
    }
}

/// Copies an optional text.
pub fn clone_opt(o: &Option<String>) -> (r: Option<String>)
    ensures
        opt_view(r) == opt_view(*o),
{
    match o {
        Some(s) => Some(s.clone()),
        None => None,
    }
}

/// Characterises `index_of_first` by the first position that holds the key.
pub proof fn lemma_first_index<A>(keys: Seq<A>, k: A)
    ensures
        match keys.index_of_first(k) {
            Some(i) => 0 <= i < keys.len() && keys[i] == k && forall|j: int|
                0 <= j < i ==> keys[j] != k,
            None => forall|j: int| 0 <= j < keys.len() ==> keys[j] != k,
        },
{
    keys.index_of_first_ensures(k);
}

/// The position that a search found is the one that `index_of_first` names.
pub proof fn lemma_first_index_at<A>(keys: Seq<A>, k: A, i: int)
    requires
        0 <= i < keys.len(),
        keys[i] == k,
        forall|j: int| 0 <= j < i ==> keys[j] != k,
    ensures
        keys.index_of_first(k) == Some(i),
{
    keys.index_of_first_ensures(k);
}

/// A search that found nothing agrees with `index_of_first`.
pub proof fn lemma_first_index_none<A>(keys: Seq<A>, k: A)
    requires
        forall|j: int| 0 <= j < keys.len() ==> keys[j] != k,
    ensures
        keys.index_of_first(k) is None,
{
    keys.index_of_first_ensures(k);
    if keys.contains(k) {
        let j = choose|j: int| 0 <= j < keys.len() && keys[j] == k;
        assert(keys[j] != k);
    }
}

} // verus!
