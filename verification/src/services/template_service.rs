//! Plan templates, and reading a template's steps out of its XML text.
use vstd::prelude::*;

use crate::clock::current_time;
use crate::models::plan::PlanContent;
use crate::models::template::{
    template_ids, template_index, template_lookup, Template, TemplateView, Templates,
};
use crate::models::{lemma_first_index, lemma_first_index_at};
use crate::text::{
    lemma_skip_ws, lemma_skip_ws_back, skip_ws, skip_ws_back,
    chars_of, find_from, find_from_exec, occurs_at, lemma_find_from, lemma_trim_shape, lowercase,
    replace_all_char, replace_char, strings_view, to_lowercase, trim, trimmed_range,
};

verus! {

/// Why a template operation was refused.
pub enum TemplateError {
    /// No template has this id.
    NotFound(String),
}

/// The opening tag of a template's description.
pub open spec fn description_open() -> Seq<char> {
    seq!['<', 'd', 'e', 's', 'c', 'r', 'i', 'p', 't', 'i', 'o', 'n', '>']
}

/// The closing tag of a template's description.
pub open spec fn description_close() -> Seq<char> {
    seq!['<', '/', 'd', 'e', 's', 'c', 'r', 'i', 'p', 't', 'i', 'o', 'n', '>']
}

/// The opening tag of a step.
pub open spec fn step_open() -> Seq<char> {
    seq!['<', 's', 't', 'e', 'p', '>']
}

/// The closing tag of a step.
pub open spec fn step_close() -> Seq<char> {
    seq!['<', '/', 's', 't', 'e', 'p', '>']
}

/// Whether the first closing description tag of `xml` does not come before
/// the end of its first opening one (where both occur). Where it does, the
/// text between them cannot be taken, and the description is not read.
pub open spec fn description_in_order(xml: Seq<char>) -> bool {
    match (find_from(xml, description_open(), 0), find_from(xml, description_close(), 0)) {
        (Some(s), Some(e)) => s + description_open().len() <= e,
        _ => true,
    }
}

/// A template's description: the trimmed text between the first opening and
/// the first closing description tag, or nothing where either is missing.
pub open spec fn xml_description(xml: Seq<char>) -> Seq<char> {
    match (find_from(xml, description_open(), 0), find_from(xml, description_close(), 0)) {
        (Some(s), Some(e)) => trim(xml.subrange(s + description_open().len(), e)),
        _ => Seq::<char>::empty(),
    }
}

/// A template's steps from `pos` on: for each opening step tag, in order,
/// the trimmed text up to the next closing step tag, where that is not
/// empty; the search goes on after that closing tag, and stops at an opening
/// tag that no closing one follows.
pub open spec fn xml_steps(xml: Seq<char>, pos: int) -> Seq<Seq<char>>
    decreases xml.len() - pos,
{
    if pos < 0 {
        Seq::empty()
    } else {
        match find_from(xml, step_open(), pos) {
            None => Seq::empty(),
            Some(s) => {
                let a: int = s + step_open().len();
                match find_from(xml, step_close(), a) {
                    None => Seq::empty(),
                    Some(e) => {
                        proof {
                            lemma_find_from(xml, step_open(), pos);
                            lemma_find_from(xml, step_close(), a);
                        }
                        let t = trim(xml.subrange(a, e));
                        let rest = xml_steps(xml, e + step_close().len());
                        if t.len() > 0 {
                            seq![t] + rest
                        } else {
                            rest
                        }
                    },
                }
            },
        }
    }
}

/// Every step read out of a template is trimmed and not empty.
pub proof fn law_steps_trimmed(xml: Seq<char>, pos: int)
    ensures
        forall|k: int|
            0 <= k < xml_steps(xml, pos).len() ==> (#[trigger] xml_steps(xml, pos)[k]).len() > 0
                && trim(xml_steps(xml, pos)[k]) == xml_steps(xml, pos)[k],
    decreases xml.len() - pos,
{
    if pos >= 0 {
        match find_from(xml, step_open(), pos) {
            None => {},
            Some(s) => {
                lemma_find_from(xml, step_open(), pos);
                let a: int = s + step_open().len();
                lemma_find_from(xml, step_close(), a);
                match find_from(xml, step_close(), a) {
                    None => {},
                    Some(e) => {
                        let t = trim(xml.subrange(a, e));
                        lemma_trim_idempotent(xml.subrange(a, e));
                        law_steps_trimmed(xml, e + step_close().len());
                        let rest = xml_steps(xml, e + step_close().len());
                        if t.len() > 0 {
                            assert forall|k: int|
                                0 <= k < xml_steps(xml, pos).len() implies (#[trigger] xml_steps(
                                xml,
                                pos,
                            )[k]).len() > 0 && trim(xml_steps(xml, pos)[k]) == xml_steps(
                                xml,
                                pos,
                            )[k] by {
                                if k > 0 {
                                    assert(xml_steps(xml, pos)[k] == rest[k - 1]);
                                }
                            }
                        }
                    },
                }
            },
        }
    }
}

/// Where `n` occurs at `k` and nowhere from `i` up to `k`, the search from
/// `i` finds it at `k`.
pub proof fn lemma_find_from_at(h: Seq<char>, n: Seq<char>, i: int, k: int)
    requires
        0 <= i <= k,
        occurs_at(h, n, k),
        forall|j: int| i <= j < k ==> !#[trigger] occurs_at(h, n, j),
    ensures
        find_from(h, n, i) == Some(k),
{
    lemma_find_from(h, n, i);
    match find_from(h, n, i) {
        Some(k2) => {
            if k2 < k {
                assert(!occurs_at(h, n, k2));
            } else if k2 > k {
                assert(!occurs_at(h, n, k));
            }
        },
        None => {
            assert(!occurs_at(h, n, k));
        },
    }
}

/// Searching a text that follows `pre` finds what searching that text alone
/// finds, moved on by the length of `pre`.
pub proof fn lemma_find_from_after(pre: Seq<char>, r: Seq<char>, n: Seq<char>, i: int)
    requires
        0 <= i,
    ensures
        find_from(pre + r, n, pre.len() + i) == match find_from(r, n, i) {
            Some(k) => Some(pre.len() + k),
            None => None::<int>,
        },
    decreases r.len() + 1 - i,
{
    let h = pre + r;
    let p = pre.len() as int;
    if i + n.len() > r.len() {
    } else {
        assert(h.subrange(p + i, p + i + n.len()) =~= r.subrange(i, i + n.len()));
        if !occurs_at(r, n, i) {
            lemma_find_from_after(pre, r, n, i + 1);
        }
    }
}

/// The steps read from a text that follows `pre` are the steps read from
/// that text alone.
pub proof fn lemma_steps_after(pre: Seq<char>, r: Seq<char>, i: int)
    requires
        0 <= i,
    ensures
        xml_steps(pre + r, pre.len() + i) == xml_steps(r, i),
    decreases r.len() - i,
{
    let h = pre + r;
    let p = pre.len() as int;
    lemma_find_from_after(pre, r, step_open(), i);
    match find_from(r, step_open(), i) {
        None => {},
        Some(s) => {
            lemma_find_from(r, step_open(), i);
            let a: int = s + step_open().len();
            lemma_find_from_after(pre, r, step_close(), a);
            assert(p + s + step_open().len() == p + a);
            match find_from(r, step_close(), a) {
                None => {},
                Some(e) => {
                    lemma_find_from(r, step_close(), a);
                    assert(h.subrange(p + a, p + e) =~= r.subrange(a, e));
                    lemma_steps_after(pre, r, e + step_close().len());
                    assert(p + e + step_close().len() == p + (e + step_close().len()));
                },
            }
        },
    }
}

/// No closing tag (a `'<'` followed by no other `'<'`) starts inside an
/// element whose text holds none.
proof fn lemma_no_close_inside(o: Seq<char>, t: Seq<char>, c: Seq<char>, r: Seq<char>, j: int)
    requires
        c.len() > 0,
        c[0] == '<',
        forall|q: int| 1 <= q < c.len() ==> #[trigger] c[q] != '<',
        forall|k: int| !#[trigger] occurs_at(t, c, k),
        o.len() <= j < o.len() + t.len(),
    ensures
        !occurs_at(o + t + c + r, c, j),
{
    let ot = o + t;
    let otc = ot + c;
    let xml = otc + r;
    let b: int = o.len() as int;
    let m: int = b + t.len() as int;
    let l: int = c.len() as int;
    if occurs_at(xml, c, j) {
        if j + l <= m {
            assert forall|q: int| 0 <= q < l implies #[trigger] xml.subrange(j, j + l)[q] == t[j
                - b + q] by {
                assert(xml[j + q] == otc[j + q]);
                assert(otc[j + q] == ot[j + q]);
                assert(ot[j + q] == t[j + q - b]);
            }
            assert(t.subrange(j - b, j - b + l) =~= xml.subrange(j, j + l));
            assert(occurs_at(t, c, j - b));
        } else {
            let q: int = m - j;
            assert(xml[m] == otc[m]);
            assert(otc[m] == c[0]);
            assert(xml.subrange(j, j + l)[q] == xml[m]);
            assert(c[q] == '<');
        }
    }
}

/// A step element at the start of a text gives one step, the whole trimmed
/// text between its opening and closing tags (none where that is blank),
/// and the steps of the text after it follow: so the steps of step elements
/// written one after another are their texts, in order. The text of the
/// element may hold anything (line breaks, other markup) but a closing step
/// tag.
pub proof fn law_leading_step_read_whole(t: Seq<char>, r: Seq<char>)
    requires
        forall|j: int| !#[trigger] occurs_at(t, step_close(), j),
    ensures
        xml_steps(step_open() + t + step_close() + r, 0) == if trim(t).len() > 0 {
            seq![trim(t)] + xml_steps(r, 0)
        } else {
            xml_steps(r, 0)
        },
{
    let o = step_open();
    let c = step_close();
    let otc = o + t + c;
    let xml = otc + r;
    let m: int = 6 + t.len() as int;
    assert(c[1] == '/' && c[2] == 's' && c[3] == 't' && c[4] == 'e' && c[5] == 'p' && c[6]
        == '>');
    assert(find_from(xml, o, 0) == Some(0int)) by {
        assert(xml.subrange(0, 6) =~= o);
        lemma_find_from_at(xml, o, 0, 0);
    }
    assert(find_from(xml, c, 6) == Some(m)) by {
        assert(xml.subrange(m, m + 7) =~= c);
        assert forall|j: int| 6 <= j < m implies !#[trigger] occurs_at(xml, c, j) by {
            lemma_no_close_inside(o, t, c, r, j);
        }
        lemma_find_from_at(xml, c, 6, m);
    }
    assert(xml.subrange(6, m) =~= t);
    lemma_steps_after(otc, r, 0);
    assert(otc.len() == m + 7);
}

/// The closing description tag holds one `'<'`, at its start.
proof fn lemma_description_close_shape()
    ensures
        description_close()[0] == '<',
        forall|q: int| 1 <= q < description_close().len() ==> #[trigger] description_close()[q]
            != '<',
{
    let c = description_close();
    assert(c[1] == '/' && c[2] == 'd' && c[3] == 'e' && c[4] == 's' && c[5] == 'c' && c[6]
        == 'r' && c[7] == 'i' && c[8] == 'p' && c[9] == 't' && c[10] == 'i' && c[11] == 'o'
        && c[12] == 'n' && c[13] == '>');
}

/// No closing description tag starts inside the opening one.
proof fn lemma_description_close_not_in_open(r: Seq<char>, j: int)
    requires
        0 <= j < 13,
    ensures
        !occurs_at(description_open() + r, description_close(), j),
{
    let o = description_open();
    let c = description_close();
    let xml = o + r;
    if occurs_at(xml, c, j) {
        assert(xml.subrange(j, j + 14)[0] == xml[j]);
        assert(xml.subrange(j, j + 14)[1] == xml[j + 1]);
        assert(xml[j] == o[j]);
        assert(o[j] == '<');
        assert(j == 0) by {
            assert(o[1] == 'd' && o[2] == 'e' && o[3] == 's' && o[4] == 'c' && o[5] == 'r'
                && o[6] == 'i' && o[7] == 'p' && o[8] == 't' && o[9] == 'i' && o[10] == 'o'
                && o[11] == 'n' && o[12] == '>');
        }
        assert(xml[1] == o[1]);
    }
}

/// A template made of a description element followed by any text reads as
/// description the whole trimmed text between the description tags, where
/// that text holds no closing description tag.
pub proof fn law_leading_description_read_whole(d: Seq<char>, r: Seq<char>)
    requires
        forall|j: int| !#[trigger] occurs_at(d, description_close(), j),
    ensures
        description_in_order(description_open() + d + description_close() + r),
        xml_description(description_open() + d + description_close() + r) == trim(d),
{
    let o = description_open();
    let c = description_close();
    let xml = o + d + c + r;
    let m: int = 13 + d.len() as int;
    lemma_description_close_shape();
    assert(find_from(xml, o, 0) == Some(0int)) by {
        assert(xml.subrange(0, 13) =~= o);
        lemma_find_from_at(xml, o, 0, 0);
    }
    assert(find_from(xml, c, 0) == Some(m)) by {
        assert(xml.subrange(m, m + 14) =~= c);
        assert forall|j: int| 0 <= j < m implies !#[trigger] occurs_at(xml, c, j) by {
            if j < 13 {
                assert(xml =~= o + (d + c + r));
                lemma_description_close_not_in_open(d + c + r, j);
            } else {
                lemma_no_close_inside(o, d, c, r, j);
            }
        }
        lemma_find_from_at(xml, c, 0, m);
    }
    assert(xml.subrange(13, m) =~= d);
}

/// A single step element gives exactly one step: the whole trimmed text
/// between its opening and closing tags, whatever that text holds (line
/// breaks, other markup) as long as it holds no closing step tag and is not
/// blank.
pub proof fn law_single_step_read_whole(t: Seq<char>)
    requires
        trim(t).len() > 0,
        forall|j: int| !#[trigger] occurs_at(t, step_close(), j),
    ensures
        xml_steps(step_open() + t + step_close(), 0) == seq![trim(t)],
{
    let e = Seq::<char>::empty();
    law_leading_step_read_whole(t, e);
    assert(step_open() + t + step_close() + e =~= step_open() + t + step_close());
    assert(find_from(e, step_open(), 0) is None);
    assert(xml_steps(e, 0) == Seq::<Seq<char>>::empty());
    assert(seq![trim(t)] + Seq::<Seq<char>>::empty() =~= seq![trim(t)]);
}

/// Trimming twice is trimming once.
pub proof fn lemma_trim_idempotent(s: Seq<char>)
    ensures
        trim(trim(s)) == trim(s),
{
    lemma_trim_shape(s);
    let t = trim(s);
    lemma_skip_ws(t, 0);
    if t.len() > 0 {
        assert(skip_ws(t, 0) == 0);
        lemma_skip_ws_back(t, 0, t.len() as int);
        assert(skip_ws_back(t, 0, t.len() as int) == t.len());
        assert(trim(t) =~= t);
    } else {
        assert(trim(t) =~= t);
    }
}

/// The id given to a template named `name`: its lowercase form with every
/// space replaced by a hyphen.
pub open spec fn template_id_for(name: Seq<char>) -> Seq<char> {
    replace_char(lowercase(name), ' ', '-')
}

fn description_open_chars() -> (v: Vec<char>)
    ensures
        v@ == description_open(),
{
    let v = vec!['<', 'd', 'e', 's', 'c', 'r', 'i', 'p', 't', 'i', 'o', 'n', '>'];
    assert(v@ =~= description_open());
    v
}

fn description_close_chars() -> (v: Vec<char>)
    ensures
        v@ == description_close(),
{
    let v = vec!['<', '/', 'd', 'e', 's', 'c', 'r', 'i', 'p', 't', 'i', 'o', 'n', '>'];
    assert(v@ =~= description_close());
    v
}

fn step_open_chars() -> (v: Vec<char>)
    ensures
        v@ == step_open(),
{
    let v = vec!['<', 's', 't', 'e', 'p', '>'];
    assert(v@ =~= step_open());
    v
}

fn step_close_chars() -> (v: Vec<char>)
    ensures
        v@ == step_close(),
{
    let v = vec!['<', '/', 's', 't', 'e', 'p', '>'];
    assert(v@ =~= step_close());
    v
}

/// Operations on the stored templates. Each works on the list as loaded;
/// reading the template file and storing the list again is left to the
/// caller.
pub struct TemplateService;

impl TemplateService {
    /// Whether the description of this template text can be read (see
    /// [`description_in_order`]).
    pub fn description_readable(xml: &str) -> (r: bool)
        ensures
            r == description_in_order(xml@),
    {
        let v = chars_of(xml);
        let open = description_open_chars();
        let close = description_close_chars();
        match (find_from_exec(&v, &open, 0), find_from_exec(&v, &close, 0)) {
            (Some(s), Some(e)) => s <= e && e - s >= open.len(),
            _ => true,
        }
    }

    /// The description and the steps of a template text.
    pub fn extract_from_xml(xml: &str) -> (r: (String, Vec<String>))
        requires
            description_in_order(xml@),
        ensures
            r.0@ == xml_description(xml@),
            strings_view(r.1@) == xml_steps(xml@, 0),
            r.1@.len() <= occurrences_from(xml@, step_open(), 0),
    {
        let v = chars_of(xml);
        let mut description = String::new();
        let d_open = description_open_chars();
        let d_close = description_close_chars();
        match find_from_exec(&v, &d_open, 0) {
            Some(ds) => match find_from_exec(&v, &d_close, 0) {
                Some(de) => {
                    proof {
                        lemma_find_from(xml@, description_close(), 0);
                        lemma_find_from(xml@, description_open(), 0);
                    }
                    description = trimmed_range(&v, ds + d_open.len(), de);
                },
                None => {},
            },
            None => {},
        }
        let s_open = step_open_chars();
        let s_close = step_close_chars();
        let mut steps: Vec<String> = Vec::new();
        let mut pos: usize = 0;
        loop
            invariant_except_break
                pos <= v@.len(),
                v@ == xml@,
                s_open@ == step_open(),
                s_close@ == step_close(),
                strings_view(steps@) + xml_steps(xml@, pos as int) == xml_steps(xml@, 0),
            ensures
                strings_view(steps@) == xml_steps(xml@, 0),
            decreases v@.len() - pos,
        {
            match find_from_exec(&v, &s_open, pos) {
                None => {
                    assert(strings_view(steps@) =~= strings_view(steps@) + xml_steps(
                        xml@,
                        pos as int,
                    ));
                    break ;
                },
                Some(s) => {
                    proof {
                        lemma_find_from(xml@, step_open(), pos as int);
                    }
                    assert(s + s_open.len() <= v.len());
                    let a: usize = s + s_open.len();
                    match find_from_exec(&v, &s_close, a) {
                        None => {
                            assert(strings_view(steps@) =~= strings_view(steps@) + xml_steps(
                                xml@,
                                pos as int,
                            ));
                            break ;
                        },
                        Some(e) => {
                            proof {
                                lemma_find_from(xml@, step_close(), a as int);
                            }
                            assert(e + s_close.len() <= v.len());
                            let t = trimmed_range(&v, a, e);
                            let ghost old_steps = strings_view(steps@);
                            let ghost rest = xml_steps(xml@, e + step_close().len());
                            if t.as_str().unicode_len() > 0 {
                                steps.push(t);
                                assert(strings_view(steps@) =~= old_steps.push(t@));
                                assert(old_steps.push(t@) + rest =~= old_steps + (seq![t@]
                                    + rest));
                            }
                            pos = e + s_close.len();
                        },
                    }
                },
            }
        }
        proof {
            law_steps_at_most_open_tags(xml@, 0);
        }
        (description, steps)
    }

    /// The id of a template whose name, lowercased, is `lower`.
    pub fn template_id_from_lowercase(lower: &str) -> (r: String)
        ensures
            r@ == replace_char(lower@, ' ', '-'),
    {
        replace_all_char(lower, ' ', '-')
    }

    /// Creates a template named `name` from the text of its XML file. Its id
    /// is the lowercase name with hyphens for spaces.
    pub fn create_template(templates: &mut Templates, name: &str, xml_content: &str) -> (r:
        Template)
        requires
            description_in_order(xml_content@),
        ensures
            r@.id == template_id_for(name@),
            r@.name == name@,
            r@.description == xml_description(xml_content@),
            r@.content == xml_steps(xml_content@, 0),
            final(templates)@ == old(templates)@.push(r@),
    {
        let lower = to_lowercase(name);
        Self::create_template_from_lowercase(templates, lower.as_str(), name, xml_content)
    }

    /// Creates a template named `name`, whose lowercase form is `lower`, from
    /// the text of its XML file. Its id is `lower` with hyphens for spaces.
    pub fn create_template_from_lowercase(
        templates: &mut Templates,
        lower: &str,
        name: &str,
        xml_content: &str,
    ) -> (r: Template)
        requires
            description_in_order(xml_content@),
        ensures
            r@.id == replace_char(lower@, ' ', '-'),
            r@.name == name@,
            r@.description == xml_description(xml_content@),
            r@.content == xml_steps(xml_content@, 0),
            final(templates)@ == old(templates)@.push(r@),
    {
        let (description, steps) = Self::extract_from_xml(xml_content);
        let id = Self::template_id_from_lowercase(lower);
        let template = Template {
            id,
            name: String::from_str(name),
            description,
            content: PlanContent { steps },
            created_at: current_time(),
        };
        templates.add_template(template.clone());
        template
    }

    /// All templates.
    pub fn list_templates(templates: &Templates) -> (r: Vec<Template>)
        ensures
            r@.map_values(|t: Template| t@) == templates@,
    {
        let mut r: Vec<Template> = Vec::new();
        let mut i: usize = 0;
        while i < templates.templates.len()
            invariant
                i <= templates.templates@.len(),
                r@.len() == i,
                forall|j: int| 0 <= j < i ==> (#[trigger] r@[j])@ == templates@[j],
            decreases templates.templates.len() - i,
        {
            r.push(templates.templates[i].clone());
            i = i + 1;
        }
        assert(r@.map_values(|t: Template| t@) =~= templates@);
        r
    }

    /// The template with this id.
    pub fn get_template(templates: &Templates, template_id: &str) -> (r: Result<
        Template,
        TemplateError,
    >)
        ensures
            match template_lookup(templates@, template_id@) {
                Some(t) => r matches Ok(q) && q@ == t,
                None => r matches Err(TemplateError::NotFound(e)) && e@ == template_id@,
            },
    {
        match templates.get_template(template_id) {
            Some(t) => Ok(t.clone()),
            None => Err(TemplateError::NotFound(String::from_str(template_id))),
        }
    }

    /// Deletes the template with this id.
    pub fn delete_template(templates: &mut Templates, template_id: &str) -> (r: Result<
        (),
        TemplateError,
    >)
        ensures
            match template_index(old(templates)@, template_id@) {
                Some(i) => r is Ok && final(templates)@ == old(templates)@.remove(i),
                None => r matches Err(TemplateError::NotFound(e)) && e@ == template_id@
                    && final(templates)@ == old(templates)@,
            },
    {
        match templates.remove_template(template_id) {
            Some(_) => Ok(()),
            None => Err(TemplateError::NotFound(String::from_str(template_id))),
        }
    }
}

/// A template's description is trimmed.
pub proof fn law_description_trimmed(xml: Seq<char>)
    ensures
        trim(xml_description(xml)) == xml_description(xml),
{
    match (find_from(xml, description_open(), 0), find_from(xml, description_close(), 0)) {
        (Some(s), Some(e)) => {
            lemma_trim_idempotent(xml.subrange(s + description_open().len(), e));
        },
        _ => {
            lemma_trim_idempotent(Seq::<char>::empty());
            assert(trim(Seq::<char>::empty()) =~= Seq::<char>::empty());
        },
    }
}

/// A template's id is its lowercase name with each space turned into a
/// hyphen and every other character kept, so it holds no space.
pub proof fn law_template_id_has_no_space(name: Seq<char>)
    ensures
        forall|k: int|
            0 <= k < template_id_for(name).len() ==> #[trigger] template_id_for(name)[k] != ' ',
        template_id_for(name).len() == lowercase(name).len(),
        forall|k: int|
            0 <= k < lowercase(name).len() ==> #[trigger] template_id_for(name)[k] == if lowercase(
                name,
            )[k] == ' ' {
                '-'
            } else {
                lowercase(name)[k]
            },
{
}

/// A template added under an id no other has is the one found by that id
/// afterwards.
pub proof fn law_added_template_found(s: Seq<TemplateView>, t: TemplateView)
    requires
        template_index(s, t.id) is None,
    ensures
        template_lookup(s.push(t), t.id) == Some(t),
{
    lemma_first_index(template_ids(s), t.id);
    assert(template_ids(s.push(t)) =~= template_ids(s).push(t.id));
    lemma_first_index_at(template_ids(s.push(t)), t.id, s.len() as int);
}

/// How many times `n` occurs in `h` at an index from `i` on.
pub open spec fn occurrences_from(h: Seq<char>, n: Seq<char>, i: int) -> nat
    decreases h.len() + 1 - i,
{
    if i < 0 || i > h.len() {
        0
    } else {
        (if occurs_at(h, n, i) {
            1nat
        } else {
            0nat
        }) + occurrences_from(h, n, i + 1)
    }
}

/// Fewer places to start from hold no more occurrences.
pub proof fn lemma_occurrences_monotone(h: Seq<char>, n: Seq<char>, i: int, j: int)
    requires
        0 <= i <= j,
    ensures
        occurrences_from(h, n, j) <= occurrences_from(h, n, i),
    decreases j - i,
{
    if i < j && i <= h.len() {
        lemma_occurrences_monotone(h, n, i + 1, j);
    }
}

/// A template yields at most one step for each opening step tag in it.
pub proof fn law_steps_at_most_open_tags(xml: Seq<char>, pos: int)
    requires
        0 <= pos,
    ensures
        xml_steps(xml, pos).len() <= occurrences_from(xml, step_open(), pos),
    decreases xml.len() - pos,
{
    match find_from(xml, step_open(), pos) {
        None => {},
        Some(s) => {
            lemma_find_from(xml, step_open(), pos);
            let a = s + step_open().len();
            lemma_find_from(xml, step_close(), a);
            match find_from(xml, step_close(), a) {
                None => {},
                Some(e) => {
                    let next = e + step_close().len();
                    law_steps_at_most_open_tags(xml, next);
                    lemma_occurrences_monotone(xml, step_open(), s + 1, next);
                    lemma_occurrences_monotone(xml, step_open(), pos, s);
                    assert(occurrences_from(xml, step_open(), s) == 1 + occurrences_from(
                        xml,
                        step_open(),
                        s + 1,
                    ));
                },
            }
        },
    }
}

} // verus!
