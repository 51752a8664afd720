//! Reusable plan templates.
use vstd::prelude::*;

use crate::clock::Timestamp;
use crate::models::plan::PlanContent;
use crate::models::{lemma_first_index_at, lemma_first_index_none};
use crate::text::str_eq;

verus! {

/// A reusable set of steps for new plans.
pub struct Template {
    pub id: String,
    pub name: String,
    pub description: String,
    pub content: PlanContent,
    pub created_at: Timestamp,
}

/// What a [`Template`] holds, as plain values.
pub struct TemplateView {
    pub id: Seq<char>,
    pub name: Seq<char>,
    pub description: Seq<char>,
    pub content: Seq<Seq<char>>,
    pub created_at: Timestamp,
}

impl View for Template {
    type V = TemplateView;

    open spec fn view(&self) -> TemplateView {
        TemplateView {
            id: self.id@,
            name: self.name@,
            description: self.description@,
            content: self.content@,
            created_at: self.created_at,
        }
    }
}

impl Clone for Template {
    fn clone(&self) -> (r: Self)
        ensures
            r@ == self@,
    {
        Template {
            id: self.id.clone(),
            name: self.name.clone(),
            description: self.description.clone(),
            content: self.content.clone(),
            created_at: self.created_at,
        }
    }
}

/// The ids of a list of templates, in order.
pub open spec fn template_ids(s: Seq<TemplateView>) -> Seq<Seq<char>> {
    s.map_values(|t: TemplateView| t.id)
}

/// Where the first template with this id stands.
pub open spec fn template_index(s: Seq<TemplateView>, id: Seq<char>) -> Option<int> {
    template_ids(s).index_of_first(id)
}

/// The first template with this id.
pub open spec fn template_lookup(s: Seq<TemplateView>, id: Seq<char>) -> Option<TemplateView> {
    match template_index(s, id) {
        Some(i) => Some(s[i]),
        None => None,
    }
}

/// All templates, in the order in which they were created.
pub struct Templates {
    pub templates: Vec<Template>,
}

impl View for Templates {
    type V = Seq<TemplateView>;

    open spec fn view(&self) -> Seq<TemplateView> {
        self.templates@.map_values(|t: Template| t@)
    }
}

impl Templates {
    /// No templates.
    pub fn new() -> (r: Self)
        ensures
            r@ == Seq::<TemplateView>::empty(),
    {
        let r = Self { templates: Vec::new() };
        assert(r@ =~= Seq::<TemplateView>::empty());
        r
    }

    /// Appends a template.
    pub fn add_template(&mut self, template: Template)
        ensures
            final(self)@ == old(self)@.push(template@),
    {
        self.templates.push(template);
        assert(self@ =~= old(self)@.push(template@));
    }

    /// Where the first template with this id stands.
    pub fn find_index(&self, id: &str) -> (r: Option<usize>)
        ensures
            r matches Some(i) ==> template_index(self@, id@) == Some(i as int) && i
                < self.templates@.len(),
            r is None ==> template_index(self@, id@) is None,
    {
        let mut i: usize = 0;
        while i < self.templates.len()
            invariant
                i <= self.templates@.len(),
                forall|j: int| 0 <= j < i ==> template_ids(self@)[j] != id@,
            decreases self.templates.len() - i,
        {
            if str_eq(self.templates[i].id.as_str(), id) {
                proof {
                    lemma_first_index_at(template_ids(self@), id@, i as int);
                }
                return Some(i);
            }
            i = i + 1;
        }
        proof {
            lemma_first_index_none(template_ids(self@), id@);
        }
        None
    }

    /// The first template with this id.
    pub fn get_template(&self, id: &str) -> (r: Option<&Template>)
        ensures
            match template_lookup(self@, id@) {
                Some(t) => r matches Some(q) && q@ == t,
                None => r is None,
            },
    {
        match self.find_index(id) {
            Some(i) => Some(&self.templates[i]),
            None => None,
        }
    }

    /// Takes out the first template with this id.
    pub fn remove_template(&mut self, id: &str) -> (r: Option<Template>)
        ensures
            match template_index(old(self)@, id@) {
                Some(i) => r matches Some(t) && t@ == old(self)@[i] && final(self)@ == old(
                    self,
                )@.remove(i),
                None => r is None && final(self)@ == old(self)@,
            },
    {
        match self.find_index(id) {
            Some(i) => {
                let t = self.templates.remove(i);
                assert(self@ =~= old(self)@.remove(i as int));
                Some(t)
            },
            None => None,
        }
    }
}

} // verus!
