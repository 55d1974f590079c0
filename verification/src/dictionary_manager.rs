//! The dictionary manager: adds and removes status codes and command
//! templates by plugin group. A group's vocabulary is created on its first
//! insertion. Each operation says what became of the request; the dictionary
//! has to be persisted exactly when that says it changed.

use vstd::prelude::*;
use crate::config::Change;
use crate::dictionary::{
    CommandTemplate, CommandTemplateView, DirectiveDictionary, DirectiveDictionaryView,
    PluginDictionary,
};
use crate::keyed::{has_key, lemma_key_index_unique, lemma_with_entry, lookup, with_entry};
use crate::state::DictionaryColumn;

verus! {

/// The dictionary with `code` added to the vocabulary of plugin group `p`,
/// which is created if missing.
pub open spec fn with_status_code(d: DirectiveDictionaryView, p: Seq<char>, code: Seq<char>) -> DirectiveDictionaryView {
    DirectiveDictionaryView {
        plugin_dictionaries: with_entry(
            d.plugin_dictionaries,
            p,
            d.bucket(p).with_status_code(code),
        ),
    }
}

/// The dictionary with `template` added under `key` to the vocabulary of
/// plugin group `p`, which is created if missing.
pub open spec fn with_template(d: DirectiveDictionaryView, p: Seq<char>, key: Seq<char>, template: CommandTemplateView) -> DirectiveDictionaryView {
    DirectiveDictionaryView {
        plugin_dictionaries: with_entry(
            d.plugin_dictionaries,
            p,
            d.bucket(p).with_template(key, template),
        ),
    }
}

/// The dictionary without `code` in the vocabulary of plugin group `p`.
pub open spec fn without_status_code(d: DirectiveDictionaryView, p: Seq<char>, code: Seq<char>) -> DirectiveDictionaryView {
    match lookup(d.plugin_dictionaries, p) {
        Some(b) => DirectiveDictionaryView {
            plugin_dictionaries: with_entry(d.plugin_dictionaries, p, b.without_status_code(code)),
        },
        None => d,
    }
}

/// The dictionary without the template under `key` in the vocabulary of
/// plugin group `p`.
pub open spec fn without_template(d: DirectiveDictionaryView, p: Seq<char>, key: Seq<char>) -> DirectiveDictionaryView {
    match lookup(d.plugin_dictionaries, p) {
        Some(b) => DirectiveDictionaryView {
            plugin_dictionaries: with_entry(d.plugin_dictionaries, p, b.without_template(key)),
        },
        None => d,
    }
}

/// Removal drops every copy: afterwards the vocabulary of the plugin group
/// does not hold the removed status code.
pub proof fn lemma_removed_code_is_gone(d: DirectiveDictionaryView, p: Seq<char>, code: Seq<char>)
    requires
        d.wf(),
    ensures
        !without_status_code(d, p, code).bucket(p).status_codes.contains(code),
{
    match lookup(d.plugin_dictionaries, p) {
        Some(b) => {
            lemma_with_entry(d.plugin_dictionaries, p, b.without_status_code(code));
            crate::text::lemma_without_text(b.status_codes, code);
        },
        None => {},
    }
}

/// The manager of the authoring vocabulary.
#[derive(Debug, Clone)]
pub struct DictionaryManager {
    pub dictionary: DirectiveDictionary,
}

impl View for DictionaryManager {
    type V = DirectiveDictionaryView;

    open spec fn view(&self) -> DirectiveDictionaryView {
        self.dictionary@
    }
}

impl DictionaryManager {
    /// The manager's invariant: the dictionary it owns is well formed.
    pub open spec fn wf(&self) -> bool {
        self.dictionary.wf()
    }

    /// A manager over the given dictionary.
    pub fn new(dictionary: DirectiveDictionary) -> (manager: Self)
        requires
            dictionary.wf(),
        ensures
            manager.wf(),
            manager@ == dictionary@,
    {
        DictionaryManager { dictionary }
    }

    /// Appends `new_code` to the status codes of plugin group `plugin_id`
    /// unless it is among them.
    pub fn add_status_code(&mut self, plugin_id: &str, new_code: String) -> (change: Change)
        requires
            old(self).wf(),
        ensures
            final(self).wf(),
            change == if old(self)@.bucket(plugin_id@).status_codes.contains(new_code@) {
                Change::AlreadyExists
            } else {
                Change::Added
            },
            change.changed() ==> final(self)@ == with_status_code(
                old(self)@,
                plugin_id@,
                new_code@,
            ),
            change.changed() == (final(self)@ != old(self)@),
    {
        proof {
            self.dictionary.plugin_dictionaries.lemma_view();
        }
        let ghost before = self.dictionary.plugin_dictionaries@;
        let i = self.dictionary.plugin_dictionaries.slot_or_insert(
            plugin_id,
            PluginDictionary::new(),
        );
        let bucket = self.dictionary.plugin_dictionaries.value_at_mut(i);
        let added = bucket.add_status_code(new_code);
        proof {
            if has_key(before, plugin_id@) {
                lemma_key_index_unique(before, i as int);
            }
            let grown = old(self)@.bucket(plugin_id@).with_status_code(new_code@);
            assert(self.dictionary.plugin_dictionaries@ =~= with_entry(before, plugin_id@, grown));
            if !added {
                assert(self.dictionary.plugin_dictionaries@ =~= before);
            }
        }
        if added {
            Change::Added
        } else {
            Change::AlreadyExists
        }
    }

    /// Stores `template` under `template_key` for plugin group `plugin_id`
    /// unless the key is taken.
    pub fn add_command_template(&mut self, plugin_id: &str, template_key: String, template: CommandTemplate) -> (change: Change)
        requires
            old(self).wf(),
        ensures
            final(self).wf(),
            change == if has_key(old(self)@.bucket(plugin_id@).command_templates, template_key@) {
                Change::AlreadyExists
            } else {
                Change::Added
            },
            change.changed() ==> final(self)@ == with_template(
                old(self)@,
                plugin_id@,
                template_key@,
                template@,
            ),
            change.changed() == (final(self)@ != old(self)@),
    {
        proof {
            self.dictionary.plugin_dictionaries.lemma_view();
        }
        let ghost before = self.dictionary.plugin_dictionaries@;
        let i = self.dictionary.plugin_dictionaries.slot_or_insert(
            plugin_id,
            PluginDictionary::new(),
        );
        let bucket = self.dictionary.plugin_dictionaries.value_at_mut(i);
        let added = bucket.add_command_template(template_key, template);
        proof {
            if has_key(before, plugin_id@) {
                lemma_key_index_unique(before, i as int);
            }
            let grown = old(self)@.bucket(plugin_id@).with_template(template_key@, template@);
            assert(self.dictionary.plugin_dictionaries@ =~= with_entry(before, plugin_id@, grown));
            if !added {
                assert(self.dictionary.plugin_dictionaries@ =~= before);
            }
        }
        if added {
            Change::Added
        } else {
            Change::AlreadyExists
        }
    }

    /// Drops `code_to_remove` from the status codes of plugin group
    /// `plugin_id`.
    pub fn remove_status_code(&mut self, plugin_id: &str, code_to_remove: &str) -> (change: Change)
        requires
            old(self).wf(),
        ensures
            final(self).wf(),
            change == match lookup(old(self)@.plugin_dictionaries, plugin_id@) {
                None => Change::PluginMissing,
                Some(b) => if b.status_codes.contains(code_to_remove@) {
                    Change::Removed
                } else {
                    Change::NotFound
                },
            },
            final(self)@ == without_status_code(old(self)@, plugin_id@, code_to_remove@),
            change.changed() == (final(self)@ != old(self)@),
    {
        proof {
            self.dictionary.plugin_dictionaries.lemma_view();
        }
        let ghost before = self.dictionary.plugin_dictionaries@;
        match self.dictionary.plugin_dictionaries.position(plugin_id) {
            Some(i) => {
                let bucket = self.dictionary.plugin_dictionaries.value_at_mut(i);
                let removed = bucket.remove_status_code(code_to_remove);
                proof {
                    lemma_key_index_unique(before, i as int);
                    let b = before[i as int].1;
                    assert(self.dictionary.plugin_dictionaries@ =~= with_entry(
                        before,
                        plugin_id@,
                        b.without_status_code(code_to_remove@),
                    ));
                    if !removed {
                        assert(self.dictionary.plugin_dictionaries@ =~= before);
                    }
                }
                if removed {
                    Change::Removed
                } else {
                    Change::NotFound
                }
            },
            None => Change::PluginMissing,
        }
    }

    /// Removes the template under `key_to_remove` from the vocabulary of
    /// plugin group `plugin_id`.
    pub fn remove_command_template(&mut self, plugin_id: &str, key_to_remove: &str) -> (change: Change)
        requires
            old(self).wf(),
        ensures
            final(self).wf(),
            change == match lookup(old(self)@.plugin_dictionaries, plugin_id@) {
                None => Change::PluginMissing,
                Some(b) => if has_key(b.command_templates, key_to_remove@) {
                    Change::Removed
                } else {
                    Change::NotFound
                },
            },
            final(self)@ == without_template(old(self)@, plugin_id@, key_to_remove@),
            change.changed() == (final(self)@ != old(self)@),
    {
        proof {
            self.dictionary.plugin_dictionaries.lemma_view();
        }
        let ghost before = self.dictionary.plugin_dictionaries@;
        match self.dictionary.plugin_dictionaries.position(plugin_id) {
            Some(i) => {
                let bucket = self.dictionary.plugin_dictionaries.value_at_mut(i);
                let removed = bucket.remove_command_template(key_to_remove);
                proof {
                    lemma_key_index_unique(before, i as int);
                    let b = before[i as int].1;
                    assert(self.dictionary.plugin_dictionaries@ =~= with_entry(
                        before,
                        plugin_id@,
                        b.without_template(key_to_remove@),
                    ));
                    if !removed {
                        assert(b.without_template(key_to_remove@) == b);
                        assert(self.dictionary.plugin_dictionaries@ =~= before);
                    }
                }
                if removed {
                    Change::Removed
                } else {
                    Change::NotFound
                }
            },
            None => Change::PluginMissing,
        }
    }

    /// Removes the item that was picked in `column` from the vocabulary of
    /// plugin group `plugin_id`: a status code in the status column, a
    /// command template in the command column. In the plugin column there
    /// is nothing to remove.
    pub fn remove_item(&mut self, column: DictionaryColumn, plugin_id: &str, item: &str) -> (change: Option<Change>)
        requires
            old(self).wf(),
        ensures
            final(self).wf(),
            final(self)@ == match column {
                DictionaryColumn::StatusCodes => without_status_code(old(self)@, plugin_id@, item@),
                DictionaryColumn::Commands => without_template(old(self)@, plugin_id@, item@),
                DictionaryColumn::Plugins => old(self)@,
            },
            change is None == (column == DictionaryColumn::Plugins),
            change is Some && !change.unwrap().changed() ==> final(self)@ == old(self)@,
            change is Some ==> change.unwrap() == match lookup(
                old(self)@.plugin_dictionaries,
                plugin_id@,
            ) {
                None => Change::PluginMissing,
                Some(b) => if match column {
                    DictionaryColumn::StatusCodes => b.status_codes.contains(item@),
                    _ => has_key(b.command_templates, item@),
                } {
                    Change::Removed
                } else {
                    Change::NotFound
                },
            },
    {
        match column {
            DictionaryColumn::StatusCodes => Some(self.remove_status_code(plugin_id, item)),
            DictionaryColumn::Commands => Some(self.remove_command_template(plugin_id, item)),
            DictionaryColumn::Plugins => None,
        }
    }
}

} // verus!
