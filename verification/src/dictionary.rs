//! The vocabulary of directive authoring: for each plugin group the status
//! codes it may report and the command templates it understands. A reserved
//! bucket, `generic`, holds vocabulary that every plugin group falls back on.

use vstd::prelude::*;
use crate::keyed::{KeyedTable, distinct_keys, has_key, lookup};
use crate::text::{add_text, drop_text, same_text, views_of, with_text, without_text};

verus! {

/// A reusable command: a display name, a priority and an optional level.
#[derive(Debug, Clone)]
pub struct CommandTemplate {
    pub name: String,
    pub priority: String,
    pub has_level: bool,
    pub level: u8,
}

/// The vocabulary of one plugin group.
#[derive(Debug, Clone)]
pub struct PluginDictionary {
    pub status_codes: Vec<String>,
    pub command_templates: KeyedTable<CommandTemplate>,
}

/// All vocabularies, by plugin group.
#[derive(Debug, Clone)]
pub struct DirectiveDictionary {
    pub plugin_dictionaries: KeyedTable<PluginDictionary>,
}

/// A command template as plain values.
pub struct CommandTemplateView {
    pub name: Seq<char>,
    pub priority: Seq<char>,
    pub has_level: bool,
    pub level: u8,
}

/// One plugin group's vocabulary as plain values.
pub struct PluginDictionaryView {
    pub status_codes: Seq<Seq<char>>,
    pub command_templates: Seq<(Seq<char>, CommandTemplateView)>,
}

/// All vocabularies as plain values.
pub struct DirectiveDictionaryView {
    pub plugin_dictionaries: Seq<(Seq<char>, PluginDictionaryView)>,
}

impl View for CommandTemplate {
    type V = CommandTemplateView;

    open spec fn view(&self) -> CommandTemplateView {
        CommandTemplateView {
            name: self.name@,
            priority: self.priority@,
            has_level: self.has_level,
            level: self.level,
        }
    }
}

impl View for PluginDictionary {
    type V = PluginDictionaryView;

    open spec fn view(&self) -> PluginDictionaryView {
        PluginDictionaryView {
            status_codes: views_of(self.status_codes@),
            command_templates: self.command_templates@,
        }
    }
}

impl View for DirectiveDictionary {
    type V = DirectiveDictionaryView;

    open spec fn view(&self) -> DirectiveDictionaryView {
        DirectiveDictionaryView { plugin_dictionaries: self.plugin_dictionaries@ }
    }
}

/// The priority name for a choice among three: 0 is low, 1 is medium, and
/// anything else is high.
pub open spec fn priority_name(choice: u8) -> Seq<char> {
    if choice == 0 {
        "LOW"@
    } else if choice == 1 {
        "MED"@
    } else {
        "HIGH"@
    }
}

impl CommandTemplateView {
    /// A template is valid if its priority is one of the three names and its
    /// level is 1 to 5 where it has one, and 0 where it has none.
    pub open spec fn valid(self) -> bool {
        &&& self.priority == "LOW"@ || self.priority == "MED"@ || self.priority == "HIGH"@
        &&& if self.has_level {
            1 <= self.level <= 5
        } else {
            self.level == 0
        }
    }
}

impl CommandTemplate {
    /// The template that an authoring form describes. Without a level the
    /// stored level is 0, whatever the form held.
    pub fn from_form(name: String, priority_choice: u8, has_level: bool, level: u8) -> (t: Self)
        ensures
            t@.name == name@,
            t@.priority == priority_name(priority_choice),
            t@.has_level == has_level,
            t@.level == if has_level {
                level
            } else {
                0
            },
            (has_level ==> 1 <= level <= 5) ==> t@.valid(),
    {
        let priority = if priority_choice == 0 {
            "LOW"
        } else if priority_choice == 1 {
            "MED"
        } else {
            "HIGH"
        };
        CommandTemplate {
            name,
            priority: priority.to_owned(),
            has_level,
            level: if has_level {
                level
            } else {
                0
            },
        }
    }

    /// Whether the template is valid.
    pub fn is_valid(&self) -> (b: bool)
        ensures
            b == self@.valid(),
    {
        let p = self.priority.as_str();
        let named = same_text(p, "LOW") || same_text(p, "MED") || same_text(p, "HIGH");
        let levelled = if self.has_level {
            1 <= self.level && self.level <= 5
        } else {
            self.level == 0
        };
        named && levelled
    }
}

impl Default for CommandTemplate {
    fn default() -> (t: Self)
        ensures
            t@ == (CommandTemplateView {
                name: Seq::empty(),
                priority: Seq::empty(),
                has_level: false,
                level: 0,
            }),
    {
        CommandTemplate { name: String::new(), priority: String::new(), has_level: false, level: 0 }
    }
}

impl PluginDictionaryView {
    /// A vocabulary without codes and templates.
    pub open spec fn empty() -> Self {
        PluginDictionaryView { status_codes: Seq::empty(), command_templates: Seq::empty() }
    }

    /// Template keys are distinct.
    pub open spec fn wf(self) -> bool {
        distinct_keys(self.command_templates)
    }

    /// The vocabulary with `code` added at the end, unless it is there.
    pub open spec fn with_status_code(self, code: Seq<char>) -> Self {
        PluginDictionaryView { status_codes: with_text(self.status_codes, code), ..self }
    }

    /// The vocabulary without the codes equal to `code`.
    pub open spec fn without_status_code(self, code: Seq<char>) -> Self {
        PluginDictionaryView { status_codes: without_text(self.status_codes, code), ..self }
    }

    /// The vocabulary with `template` added under `key`, unless the key is
    /// taken.
    pub open spec fn with_template(self, key: Seq<char>, template: CommandTemplateView) -> Self {
        if has_key(self.command_templates, key) {
            self
        } else {
            PluginDictionaryView {
                command_templates: self.command_templates.push((key, template)),
                ..self
            }
        }
    }

    /// The vocabulary without the template under `key`.
    pub open spec fn without_template(self, key: Seq<char>) -> Self {
        PluginDictionaryView {
            command_templates: crate::keyed::without_key(self.command_templates, key),
            ..self
        }
    }
}

impl DirectiveDictionaryView {
    /// A dictionary without vocabularies.
    pub open spec fn empty() -> Self {
        DirectiveDictionaryView { plugin_dictionaries: Seq::empty() }
    }

    /// The vocabulary of plugin group `p`; an empty one if there is none.
    pub open spec fn bucket(self, p: Seq<char>) -> PluginDictionaryView {
        match lookup(self.plugin_dictionaries, p) {
            Some(b) => b,
            None => PluginDictionaryView::empty(),
        }
    }

    /// Keys are distinct at both levels.
    pub open spec fn wf(self) -> bool {
        &&& distinct_keys(self.plugin_dictionaries)
        &&& forall|i: int|
            0 <= i < self.plugin_dictionaries.len() ==> (#[trigger] self.plugin_dictionaries[i]).1.wf()
    }
}

impl PluginDictionary {
    /// No template key occurs twice.
    pub open spec fn wf(&self) -> bool {
        self.command_templates.wf()
    }

    /// The invariant carries over to the view.
    pub proof fn lemma_wf_view(&self)
        requires
            self.wf(),
        ensures
            self@.wf(),
    {
        self.command_templates.lemma_view();
    }

    /// A vocabulary without codes and templates.
    pub fn new() -> (d: Self)
        ensures
            d.wf(),
            d@ == PluginDictionaryView::empty(),
    {
        let d = PluginDictionary { status_codes: Vec::new(), command_templates: KeyedTable::new() };
        assert(d@.status_codes =~= Seq::<Seq<char>>::empty());
        d
    }

    /// Appends `code` unless the vocabulary holds it; says whether it was
    /// added.
    pub fn add_status_code(&mut self, code: String) -> (added: bool)
        requires
            old(self).wf(),
        ensures
            final(self).wf(),
            added == !old(self)@.status_codes.contains(code@),
            final(self)@ == old(self)@.with_status_code(code@),
    {
        add_text(&mut self.status_codes, code)
    }

    /// Drops every code equal to `code`; says whether there was one.
    pub fn remove_status_code(&mut self, code: &str) -> (removed: bool)
        requires
            old(self).wf(),
        ensures
            final(self).wf(),
            removed == old(self)@.status_codes.contains(code@),
            final(self)@ == old(self)@.without_status_code(code@),
            !removed ==> final(self)@ == old(self)@,
    {
        drop_text(&mut self.status_codes, code)
    }

    /// Stores `template` under `key` unless the key is taken; says whether
    /// it was added.
    pub fn add_command_template(&mut self, key: String, template: CommandTemplate) -> (added: bool)
        requires
            old(self).wf(),
        ensures
            final(self).wf(),
            added == !has_key(old(self)@.command_templates, key@),
            final(self)@ == old(self)@.with_template(key@, template@),
    {
        if self.command_templates.contains_key(key.as_str()) {
            false
        } else {
            self.command_templates.push(key, template);
            true
        }
    }

    /// Removes the template under `key`; says whether there was one.
    pub fn remove_command_template(&mut self, key: &str) -> (removed: bool)
        requires
            old(self).wf(),
        ensures
            final(self).wf(),
            removed == has_key(old(self)@.command_templates, key@),
            final(self)@ == old(self)@.without_template(key@),
    {
        self.command_templates.remove(key).is_some()
    }
}

impl Default for PluginDictionary {
    fn default() -> (d: Self)
        ensures
            d.wf(),
            d@ == PluginDictionaryView::empty(),
    {
        PluginDictionary::new()
    }
}

impl DirectiveDictionary {
    /// No plugin key occurs twice, and every vocabulary is well formed.
    pub open spec fn wf(&self) -> bool {
        &&& self.plugin_dictionaries.wf()
        &&& forall|i: int|
            0 <= i < self.plugin_dictionaries.values().len() ==> (
            #[trigger] self.plugin_dictionaries.values()[i]).wf()
    }

    /// The invariant carries over to the view.
    pub proof fn lemma_wf_view(&self)
        requires
            self.wf(),
        ensures
            self@.wf(),
    {
        self.plugin_dictionaries.lemma_view();
        assert forall|i: int| 0 <= i < self@.plugin_dictionaries.len() implies (
        #[trigger] self@.plugin_dictionaries[i]).1.wf() by {
            self.plugin_dictionaries.values()[i].lemma_wf_view();
        }
    }

    /// A dictionary without vocabularies.
    pub fn new() -> (d: Self)
        ensures
            d.wf(),
            d@ == DirectiveDictionaryView::empty(),
    {
        DirectiveDictionary { plugin_dictionaries: KeyedTable::new() }
    }
}

impl Default for DirectiveDictionary {
    fn default() -> (d: Self)
        ensures
            d.wf(),
            d@ == DirectiveDictionaryView::empty(),
    {
        DirectiveDictionary::new()
    }
}

} // verus!
