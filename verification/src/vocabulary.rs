//! What directive authoring offers for a target: the status codes and the
//! command templates of the target's plugin group, followed by those of the
//! reserved `generic` vocabulary that the group does not already provide.

use vstd::prelude::*;
use crate::dictionary::{
    CommandTemplate, CommandTemplateView, DirectiveDictionary, DirectiveDictionaryView,
};
use crate::keyed::lookup;
use crate::text::{id_parts, same_text, split_id};

verus! {

/// The key of the fallback vocabulary.
pub const GENERIC: &'static str = "generic";

/// A choice offered to the author: a label to show and the value it stands
/// for.
pub type ChoiceView = (Seq<char>, Seq<char>);

/// The views of a list of choices.
pub open spec fn choices_view(v: Seq<(String, String)>) -> Seq<ChoiceView> {
    v.map_values(|c: (String, String)| (c.0@, c.1@))
}

/// Whether some choice stands for `value`.
pub open spec fn offers(choices: Seq<ChoiceView>, value: Seq<char>) -> bool {
    exists|i: int| 0 <= i < choices.len() && (#[trigger] choices[i]).1 == value
}

/// `base` followed by those of `extra`, in order, whose value is not offered
/// by anything before them.
pub open spec fn merged(base: Seq<ChoiceView>, extra: Seq<ChoiceView>) -> Seq<ChoiceView>
    decreases extra.len(),
{
    if extra.len() == 0 {
        base
    } else {
        let before = merged(base, extra.drop_last());
        if offers(before, extra.last().1) {
            before
        } else {
            before.push(extra.last())
        }
    }
}

/// A status code as a choice: it is its own label.
pub open spec fn code_choices(codes: Seq<Seq<char>>) -> Seq<ChoiceView> {
    codes.map_values(|c: Seq<char>| (c, c))
}

/// Command templates as choices: the template's name is the label, its key
/// the value.
pub open spec fn template_choices(templates: Seq<(Seq<char>, CommandTemplateView)>) -> Seq<ChoiceView> {
    templates.map_values(|t: (Seq<char>, CommandTemplateView)| (t.1.name, t.0))
}

/// The plugin group that an identifier belongs to: its first component.
pub open spec fn plugin_of(id: Seq<char>) -> Seq<char> {
    id_parts(id)[0]
}

/// The status codes offered for `target`: those of its plugin group, then
/// the generic ones that are not among them.
pub open spec fn status_vocabulary(d: DirectiveDictionaryView, target: Seq<char>) -> Seq<ChoiceView> {
    merged(
        code_choices(d.bucket(plugin_of(target)).status_codes),
        code_choices(d.bucket(GENERIC@).status_codes),
    )
}

/// The command templates offered for `target`: those of its plugin group,
/// then the generic ones whose key the group does not use.
pub open spec fn command_vocabulary(d: DirectiveDictionaryView, target: Seq<char>) -> Seq<ChoiceView> {
    merged(
        template_choices(d.bucket(plugin_of(target)).command_templates),
        template_choices(d.bucket(GENERIC@).command_templates),
    )
}

/// The template that `key` names for `target`: the one of its plugin group
/// if it has one, else the generic one.
pub open spec fn template_for(d: DirectiveDictionaryView, target: Seq<char>, key: Seq<char>) -> Option<CommandTemplateView> {
    match lookup(d.bucket(plugin_of(target)).command_templates, key) {
        Some(t) => Some(t),
        None => lookup(d.bucket(GENERIC@).command_templates, key),
    }
}

/// Whether some choice of the list stands for `value`.
pub fn is_offered(choices: &Vec<(String, String)>, value: &str) -> (b: bool)
    ensures
        b == offers(choices_view(choices@), value@),
{
    let n = choices.len();
    let mut i: usize = 0;
    while i < n
        invariant
            n == choices@.len(),
            i <= n,
            forall|j: int| 0 <= j < i ==> (#[trigger] choices_view(choices@)[j]).1 != value@,
        decreases n - i,
    {
        if same_text(choices[i].1.as_str(), value) {
            assert(choices_view(choices@)[i as int].1 == value@);
            return true;
        }
        i = i + 1;
    }
    false
}

/// Every status code of `codes` as a choice, in order.
fn all_codes(codes: &Vec<String>) -> (choices: Vec<(String, String)>)
    ensures
        choices_view(choices@) == code_choices(crate::text::views_of(codes@)),
{
    let mut choices: Vec<(String, String)> = Vec::new();
    let n = codes.len();
    let mut i: usize = 0;
    while i < n
        invariant
            n == codes@.len(),
            i <= n,
            choices@.len() == i,
            forall|j: int| 0 <= j < i ==> (#[trigger] choices@[j]).0@ == codes@[j]@ && choices@[j].1@ == codes@[j]@,
        decreases n - i,
    {
        let label = codes[i].clone();
        let value = codes[i].clone();
        choices.push((label, value));
        i = i + 1;
    }
    assert(choices_view(choices@) =~= code_choices(crate::text::views_of(codes@)));
    choices
}

/// Appends the status codes of `codes` that `choices` does not offer yet.
fn offer_codes(choices: &mut Vec<(String, String)>, codes: &Vec<String>)
    ensures
        choices_view(final(choices)@) == merged(
            choices_view(old(choices)@),
            code_choices(crate::text::views_of(codes@)),
        ),
{
    let ghost base = choices_view(choices@);
    let ghost extra = code_choices(crate::text::views_of(codes@));
    let n = codes.len();
    let mut i: usize = 0;
    assert(extra.take(0) =~= Seq::<ChoiceView>::empty());
    while i < n
        invariant
            n == codes@.len(),
            extra == code_choices(crate::text::views_of(codes@)),
            i <= n,
            choices_view(choices@) == merged(base, extra.take(i as int)),
        decreases n - i,
    {
        proof {
            assert(extra.take(i + 1).drop_last() =~= extra.take(i as int));
            assert(extra.take(i + 1).last() == (codes@[i as int]@, codes@[i as int]@));
        }
        if !is_offered(choices, codes[i].as_str()) {
            let ghost before = choices_view(choices@);
            let label = codes[i].clone();
            let value = codes[i].clone();
            choices.push((label, value));
            assert(choices_view(choices@) =~= before.push((codes@[i as int]@, codes@[i as int]@)));
        }
        i = i + 1;
    }
    assert(extra.take(n as int) =~= extra);
}

/// Appends the templates of `bucket` whose key `choices` does not offer yet.
fn offer_templates(choices: &mut Vec<(String, String)>, bucket: &crate::dictionary::PluginDictionary)
    requires
        bucket.wf(),
    ensures
        choices_view(final(choices)@) == merged(
            choices_view(old(choices)@),
            template_choices(bucket@.command_templates),
        ),
{
    let ghost base = choices_view(choices@);
    let ghost extra = template_choices(bucket@.command_templates);
    let n = bucket.command_templates.len();
    let mut i: usize = 0;
    assert(extra.take(0) =~= Seq::<ChoiceView>::empty());
    while i < n
        invariant
            bucket.wf(),
            n == bucket@.command_templates.len(),
            extra == template_choices(bucket@.command_templates),
            i <= n,
            choices_view(choices@) == merged(base, extra.take(i as int)),
        decreases n - i,
    {
        let key = bucket.command_templates.key_at(i);
        let template = bucket.command_templates.value_at(i);
        proof {
            assert(extra.take(i + 1).drop_last() =~= extra.take(i as int));
            assert(extra.take(i + 1).last() == (template@.name, key@));
        }
        if !is_offered(choices, key) {
            let ghost before = choices_view(choices@);
            let label = template.name.clone();
            let value = key.to_owned();
            choices.push((label, value));
            assert(choices_view(choices@) =~= before.push((template@.name, key@)));
        }
        i = i + 1;
    }
    assert(extra.take(n as int) =~= extra);
}

/// The status codes to choose from when `target_id` is the trigger of a new
/// directive.
pub fn status_choices(dictionary: &DirectiveDictionary, target_id: &str) -> (choices: Vec<(String, String)>)
    requires
        dictionary.wf(),
    ensures
        choices_view(choices@) == status_vocabulary(dictionary@, target_id@),
{
    let parts = split_id(target_id);
    assert(parts@[0]@ == plugin_of(target_id@));
    let mut choices: Vec<(String, String)> = match dictionary.plugin_dictionaries.get(
        parts[0].as_str(),
    ) {
        Some(bucket) => all_codes(&bucket.status_codes),
        None => {
            let none: Vec<(String, String)> = Vec::new();
            assert(choices_view(none@) =~= code_choices(Seq::<Seq<char>>::empty()));
            none
        },
    };
    match dictionary.plugin_dictionaries.get(GENERIC) {
        Some(bucket) => {
            offer_codes(&mut choices, &bucket.status_codes);
        },
        None => {
            assert(code_choices(Seq::<Seq<char>>::empty()) =~= Seq::<ChoiceView>::empty());
        },
    }
    choices
}

/// The command templates to choose from when `target_id` is the target of a
/// new directive's command.
pub fn command_choices(dictionary: &DirectiveDictionary, target_id: &str) -> (choices: Vec<(String, String)>)
    requires
        dictionary.wf(),
    ensures
        choices_view(choices@) == command_vocabulary(dictionary@, target_id@),
{
    let parts = split_id(target_id);
    assert(parts@[0]@ == plugin_of(target_id@));
    let mut choices: Vec<(String, String)> = Vec::new();
    assert(choices_view(choices@) =~= Seq::<ChoiceView>::empty());
    match dictionary.plugin_dictionaries.get(parts[0].as_str()) {
        Some(bucket) => {
            proof {
                dictionary.plugin_dictionaries.lemma_view();
                bucket.lemma_wf_view();
                lemma_merge_distinct(template_choices(bucket@.command_templates));
            }
            offer_templates(&mut choices, bucket);
        },
        None => {
            assert(template_choices(Seq::<(Seq<char>, CommandTemplateView)>::empty())
                =~= Seq::<ChoiceView>::empty());
        },
    }
    match dictionary.plugin_dictionaries.get(GENERIC) {
        Some(bucket) => {
            proof {
                dictionary.plugin_dictionaries.lemma_view();
            }
            offer_templates(&mut choices, bucket);
        },
        None => {
            assert(template_choices(Seq::<(Seq<char>, CommandTemplateView)>::empty())
                =~= Seq::<ChoiceView>::empty());
        },
    }
    choices
}

/// Choices whose values are all different survive a merge into nothing
/// unchanged.
pub proof fn lemma_merge_distinct(extra: Seq<ChoiceView>)
    requires
        forall|i: int, j: int| 0 <= i < j < extra.len() ==> (#[trigger] extra[i]).1 != (#[trigger] extra[j]).1,
    ensures
        merged(Seq::empty(), extra) == extra,
    decreases extra.len(),
{
    if extra.len() > 0 {
        let head = extra.drop_last();
        lemma_merge_distinct(head);
        if offers(head, extra.last().1) {
            let i = choose|i: int| 0 <= i < head.len() && (#[trigger] head[i]).1 == extra.last().1;
            assert(extra[i].1 != extra[extra.len() - 1].1);
        }
        assert(head.push(extra.last()) =~= extra);
    }
}

/// The template that `key` names for `target_id`: the one of the target's
/// plugin group if it has one, else the generic one.
pub fn find_template<'a>(dictionary: &'a DirectiveDictionary, target_id: &str, key: &str) -> (found: Option<&'a CommandTemplate>)
    requires
        dictionary.wf(),
    ensures
        match found {
            Some(t) => template_for(dictionary@, target_id@, key@) == Some(t@),
            None => template_for(dictionary@, target_id@, key@) is None,
        },
{
    let parts = split_id(target_id);
    assert(parts@[0]@ == plugin_of(target_id@));
    proof {
        dictionary.plugin_dictionaries.lemma_view();
    }
    match dictionary.plugin_dictionaries.get(parts[0].as_str()) {
        Some(bucket) => {
            match bucket.command_templates.get(key) {
                Some(t) => {
                    return Some(t);
                },
                None => {},
            }
        },
        None => {},
    }
    match dictionary.plugin_dictionaries.get(GENERIC) {
        Some(bucket) => bucket.command_templates.get(key),
        None => None,
    }
}

} // verus!
