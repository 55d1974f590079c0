//! The topology manager: create and delete operations addressed by
//! identifier. Each operation says what became of the request; the topology
//! has to be persisted exactly when that says it changed.

use vstd::prelude::*;
use crate::config::{Change, Config, ConfigView, Plugin, PluginView};
use crate::keyed::{has_key, lemma_key_index_unique, lookup, with_entry, without_key};
use crate::text::{id_parts, split_id};

verus! {

/// The topology with plugin group `p` added under `auth_key`, unless `p` is
/// there already.
pub open spec fn with_plugin(cfg: ConfigView, p: Seq<char>, auth_key: Seq<char>) -> ConfigView {
    if has_key(cfg.plugins, p) {
        cfg
    } else {
        ConfigView { plugins: cfg.plugins.push((p, PluginView::fresh(auth_key))) }
    }
}

/// The topology with subsection `s` added below plugin group `p`. Nothing
/// changes if `p` is missing or `s` is there already.
pub open spec fn with_subsection(cfg: ConfigView, p: Seq<char>, s: Seq<char>, auth_key: Seq<char>) -> ConfigView {
    match lookup(cfg.plugins, p) {
        Some(plugin) => ConfigView {
            plugins: with_entry(cfg.plugins, p, plugin.with_subsection(s, auth_key)),
        },
        None => cfg,
    }
}

/// The topology with entity `e` added below the subsection that `parent`
/// names. Nothing changes unless `parent` has exactly two components that
/// name an existing subsection without an entity `e`.
pub open spec fn with_entity(cfg: ConfigView, parent: Seq<char>, e: Seq<char>, auth_key: Seq<char>) -> ConfigView {
    let parts = id_parts(parent);
    if parts.len() != 2 {
        cfg
    } else {
        match lookup(cfg.plugins, parts[0]) {
            Some(plugin) => ConfigView {
                plugins: with_entry(cfg.plugins, parts[0], plugin.with_entity(parts[1], e, auth_key)),
            },
            None => cfg,
        }
    }
}

/// The topology without plugin group `p` and what it owns.
pub open spec fn without_plugin(cfg: ConfigView, p: Seq<char>) -> ConfigView {
    ConfigView { plugins: without_key(cfg.plugins, p) }
}

/// The topology without subsection `s` of plugin group `p`.
pub open spec fn without_subsection(cfg: ConfigView, p: Seq<char>, s: Seq<char>) -> ConfigView {
    match lookup(cfg.plugins, p) {
        Some(plugin) => ConfigView {
            plugins: with_entry(cfg.plugins, p, plugin.without_subsection(s)),
        },
        None => cfg,
    }
}

/// The topology without entity `e` of the subsection that `parent` names.
pub open spec fn without_entity(cfg: ConfigView, parent: Seq<char>, e: Seq<char>) -> ConfigView {
    let parts = id_parts(parent);
    if parts.len() != 2 {
        cfg
    } else {
        match lookup(cfg.plugins, parts[0]) {
            Some(plugin) => ConfigView {
                plugins: with_entry(cfg.plugins, parts[0], plugin.without_entity(parts[1], e)),
            },
            None => cfg,
        }
    }
}

/// The topology without the node that `id` names: a plugin group for one
/// component, a subsection for two, an entity for three. Any other
/// identifier names nothing.
pub open spec fn without_component(cfg: ConfigView, id: Seq<char>) -> ConfigView {
    let parts = id_parts(id);
    if parts.len() == 1 {
        without_plugin(cfg, parts[0])
    } else if parts.len() == 2 {
        without_subsection(cfg, parts[0], parts[1])
    } else if parts.len() == 3 {
        match lookup(cfg.plugins, parts[0]) {
            Some(plugin) => ConfigView {
                plugins: with_entry(cfg.plugins, parts[0], plugin.without_entity(parts[1], parts[2])),
            },
            None => cfg,
        }
    } else {
        cfg
    }
}

/// What `remove_component` answers on the given topology.
pub open spec fn remove_component_change(cfg: ConfigView, id: Seq<char>) -> Change {
    let parts = id_parts(id);
    if parts.len() == 1 {
        if has_key(cfg.plugins, parts[0]) {
            Change::Removed
        } else {
            Change::NotFound
        }
    } else if parts.len() == 2 {
        match lookup(cfg.plugins, parts[0]) {
            None => Change::PluginMissing,
            Some(plugin) => if has_key(plugin.subsections, parts[1]) {
                Change::Removed
            } else {
                Change::NotFound
            },
        }
    } else if parts.len() == 3 {
        match lookup(cfg.plugins, parts[0]) {
            None => Change::PluginMissing,
            Some(plugin) => match lookup(plugin.subsections, parts[1]) {
                None => Change::SubsectionMissing,
                Some(sub) => if has_key(sub.entities, parts[2]) {
                    Change::Removed
                } else {
                    Change::NotFound
                },
            },
        }
    } else {
        Change::InvalidId
    }
}

/// What `add_entity` answers on the given topology.
pub open spec fn add_entity_change(cfg: ConfigView, parent: Seq<char>, e: Seq<char>) -> Change {
    let parts = id_parts(parent);
    if parts.len() != 2 {
        Change::InvalidId
    } else {
        match lookup(cfg.plugins, parts[0]) {
            None => Change::PluginMissing,
            Some(plugin) => match lookup(plugin.subsections, parts[1]) {
                None => Change::SubsectionMissing,
                Some(sub) => if has_key(sub.entities, e) {
                    Change::AlreadyExists
                } else {
                    Change::Added
                },
            },
        }
    }
}

/// What `remove_entity` answers on the given topology.
pub open spec fn remove_entity_change(cfg: ConfigView, parent: Seq<char>, e: Seq<char>) -> Change {
    let parts = id_parts(parent);
    if parts.len() != 2 {
        Change::InvalidId
    } else {
        match lookup(cfg.plugins, parts[0]) {
            None => Change::PluginMissing,
            Some(plugin) => match lookup(plugin.subsections, parts[1]) {
                None => Change::SubsectionMissing,
                Some(sub) => if has_key(sub.entities, e) {
                    Change::Removed
                } else {
                    Change::NotFound
                },
            },
        }
    }
}

/// The manager of the fleet topology.
#[derive(Debug, Clone)]
pub struct ConfigManager {
    pub config: Config,
}

impl View for ConfigManager {
    type V = ConfigView;

    open spec fn view(&self) -> ConfigView {
        self.config@
    }
}

impl ConfigManager {
    /// The manager's invariant: the topology it owns is well formed.
    pub open spec fn wf(&self) -> bool {
        self.config.wf()
    }

    /// A manager over the given topology.
    pub fn new(config: Config) -> (manager: Self)
        requires
            config.wf(),
        ensures
            manager.wf(),
            manager@ == config@,
    {
        ConfigManager { config }
    }

    /// Adds plugin group `plugin_id` under `auth_key`. Nothing changes if a
    /// plugin group of that name exists.
    pub fn add_plugin(&mut self, plugin_id: String, auth_key: String) -> (change: Change)
        requires
            old(self).wf(),
        ensures
            final(self).wf(),
            final(self)@ == with_plugin(old(self)@, plugin_id@, auth_key@),
            change == if has_key(old(self)@.plugins, plugin_id@) {
                Change::AlreadyExists
            } else {
                Change::Added
            },
            change.changed() == (final(self)@ != old(self)@),
    {
        if self.config.plugins.contains_key(plugin_id.as_str()) {
            return Change::AlreadyExists;
        }
        self.config.plugins.push(plugin_id, Plugin::new(auth_key));
        Change::Added
    }

    /// Adds subsection `subsection_id` below plugin group `parent_plugin_id`.
    /// Nothing changes if the plugin group is missing or the subsection
    /// exists.
    pub fn add_subsection(&mut self, parent_plugin_id: &str, subsection_id: String, auth_key: String) -> (change: Change)
        requires
            old(self).wf(),
        ensures
            final(self).wf(),
            final(self)@ == with_subsection(
                old(self)@,
                parent_plugin_id@,
                subsection_id@,
                auth_key@,
            ),
            change == match lookup(old(self)@.plugins, parent_plugin_id@) {
                None => Change::PluginMissing,
                Some(plugin) => if has_key(plugin.subsections, subsection_id@) {
                    Change::AlreadyExists
                } else {
                    Change::Added
                },
            },
            change.changed() == (final(self)@ != old(self)@),
    {
        proof {
            self.config.plugins.lemma_view();
        }
        let ghost before = self.config.plugins@;
        match self.config.plugins.position(parent_plugin_id) {
            Some(i) => {
                let plugin = self.config.plugins.value_at_mut(i);
                let added = plugin.add_subsection(subsection_id, auth_key);
                proof {
                    lemma_key_index_unique(before, i as int);
                    let p = before[i as int].1;
                    assert(self.config.plugins@ =~= with_entry(
                        before,
                        parent_plugin_id@,
                        p.with_subsection(subsection_id@, auth_key@),
                    ));
                    if !added {
                        assert(self.config.plugins@ =~= before);
                    }
                }
                if added {
                    Change::Added
                } else {
                    Change::AlreadyExists
                }
            },
            None => Change::PluginMissing,
        }
    }

    /// Adds entity `entity_id` below the subsection that `parent_id` names,
    /// which must have exactly two components. Nothing changes if it has
    /// not, if a parent is missing or if the entity exists.
    pub fn add_entity(&mut self, parent_id: &str, entity_id: String, auth_key: String) -> (change: Change)
        requires
            old(self).wf(),
        ensures
            final(self).wf(),
            final(self)@ == with_entity(old(self)@, parent_id@, entity_id@, auth_key@),
            change == add_entity_change(old(self)@, parent_id@, entity_id@),
            change.changed() == (final(self)@ != old(self)@),
    {
        proof {
            self.config.plugins.lemma_view();
        }
        let parts = split_id(parent_id);
        let ghost ids = id_parts(parent_id@);
        let ghost before = self.config.plugins@;
        assert(forall|i: int| 0 <= i < parts@.len() ==> #[trigger] parts@[i]@ == ids[i]);
        if parts.len() != 2 {
            return Change::InvalidId;
        }
        match self.config.plugins.position(parts[0].as_str()) {
            Some(i) => {
                let plugin = self.config.plugins.value_at_mut(i);
                let change = plugin.add_entity(parts[1].as_str(), entity_id, auth_key);
                proof {
                    lemma_key_index_unique(before, i as int);
                    let p = before[i as int].1;
                    assert(self.config.plugins@ =~= with_entry(
                        before,
                        ids[0],
                        p.with_entity(ids[1], entity_id@, auth_key@),
                    ));
                    if !change.changed() {
                        assert(self.config.plugins@ =~= before);
                    } else {
                        assert(self.config.plugins@[i as int].1 != p);
                    }
                }
                change
            },
            None => Change::PluginMissing,
        }
    }

    /// Removes plugin group `plugin_id` with everything below it.
    pub fn remove_plugin(&mut self, plugin_id: &str) -> (change: Change)
        requires
            old(self).wf(),
        ensures
            final(self).wf(),
            final(self)@ == without_plugin(old(self)@, plugin_id@),
            change == if has_key(old(self)@.plugins, plugin_id@) {
                Change::Removed
            } else {
                Change::NotFound
            },
            change.changed() == (final(self)@ != old(self)@),
    {
        let ghost vals = self.config.plugins.values();
        let removed = self.config.plugins.remove(plugin_id).is_some();
        proof {
            if removed {
                let at = old(self).config.plugins.slot(plugin_id@);
                old(self).config.plugins.lemma_view();
                assert forall|i: int| 0 <= i < self.config.plugins.values().len() implies (
                #[trigger] self.config.plugins.values()[i]).wf() by {
                    let j = if i < at { i } else { i + 1 };
                    assert(self.config.plugins.values()[i] == vals[j]);
                }
            }
        }
        if removed {
            Change::Removed
        } else {
            Change::NotFound
        }
    }

    /// Removes subsection `subsection_id` of plugin group `plugin_id`, with
    /// its entities.
    pub fn remove_subsection(&mut self, plugin_id: &str, subsection_id: &str) -> (change: Change)
        requires
            old(self).wf(),
        ensures
            final(self).wf(),
            final(self)@ == without_subsection(old(self)@, plugin_id@, subsection_id@),
            change == match lookup(old(self)@.plugins, plugin_id@) {
                None => Change::PluginMissing,
                Some(plugin) => if has_key(plugin.subsections, subsection_id@) {
                    Change::Removed
                } else {
                    Change::NotFound
                },
            },
            change.changed() == (final(self)@ != old(self)@),
    {
        proof {
            self.config.plugins.lemma_view();
        }
        let ghost before = self.config.plugins@;
        match self.config.plugins.position(plugin_id) {
            Some(i) => {
                let plugin = self.config.plugins.value_at_mut(i);
                let removed = plugin.remove_subsection(subsection_id);
                proof {
                    lemma_key_index_unique(before, i as int);
                    let p = before[i as int].1;
                    assert(self.config.plugins@ =~= with_entry(
                        before,
                        plugin_id@,
                        p.without_subsection(subsection_id@),
                    ));
                    if !removed {
                        assert(p.without_subsection(subsection_id@) == p);
                        assert(self.config.plugins@ =~= before);
                    }
                }
                if removed {
                    Change::Removed
                } else {
                    Change::NotFound
                }
            },
            None => Change::PluginMissing,
        }
    }

    /// Removes entity `entity_id` of the subsection that `parent_id` names,
    /// which must have exactly two components.
    pub fn remove_entity(&mut self, parent_id: &str, entity_id: &str) -> (change: Change)
        requires
            old(self).wf(),
        ensures
            final(self).wf(),
            final(self)@ == without_entity(old(self)@, parent_id@, entity_id@),
            change == remove_entity_change(old(self)@, parent_id@, entity_id@),
            change.changed() == (final(self)@ != old(self)@),
    {
        proof {
            self.config.plugins.lemma_view();
        }
        let parts = split_id(parent_id);
        let ghost ids = id_parts(parent_id@);
        let ghost before = self.config.plugins@;
        assert(forall|i: int| 0 <= i < parts@.len() ==> #[trigger] parts@[i]@ == ids[i]);
        if parts.len() != 2 {
            return Change::InvalidId;
        }
        match self.config.plugins.position(parts[0].as_str()) {
            Some(i) => {
                let plugin = self.config.plugins.value_at_mut(i);
                let change = plugin.remove_entity(parts[1].as_str(), entity_id);
                proof {
                    lemma_key_index_unique(before, i as int);
                    let p = before[i as int].1;
                    assert(self.config.plugins@ =~= with_entry(
                        before,
                        ids[0],
                        p.without_entity(ids[1], entity_id@),
                    ));
                    if !change.changed() {
                        assert(self.config.plugins@ =~= before);
                    } else {
                        assert(self.config.plugins@[i as int].1 != p);
                    }
                }
                change
            },
            None => Change::PluginMissing,
        }
    }

    /// Removes the node that `target_id` names, with everything below it: a
    /// plugin group for one component, a subsection for two, an entity for
    /// three. An identifier of more components names nothing.
    pub fn remove_component(&mut self, target_id: &str) -> (change: Change)
        requires
            old(self).wf(),
        ensures
            final(self).wf(),
            final(self)@ == without_component(old(self)@, target_id@),
            change == remove_component_change(old(self)@, target_id@),
            change.changed() == (final(self)@ != old(self)@),
    {
        proof {
            self.config.plugins.lemma_view();
        }
        let parts = split_id(target_id);
        let ghost ids = id_parts(target_id@);
        let ghost before = self.config.plugins@;
        assert(forall|i: int| 0 <= i < parts@.len() ==> #[trigger] parts@[i]@ == ids[i]);
        if parts.len() == 1 {
            self.remove_plugin(parts[0].as_str())
        } else if parts.len() == 2 {
            self.remove_subsection(parts[0].as_str(), parts[1].as_str())
        } else if parts.len() == 3 {
            match self.config.plugins.position(parts[0].as_str()) {
                Some(i) => {
                    let plugin = self.config.plugins.value_at_mut(i);
                    let change = plugin.remove_entity(parts[1].as_str(), parts[2].as_str());
                    proof {
                        lemma_key_index_unique(before, i as int);
                        let p = before[i as int].1;
                        assert(self.config.plugins@ =~= with_entry(
                            before,
                            ids[0],
                            p.without_entity(ids[1], ids[2]),
                        ));
                        if !change.changed() {
                            assert(self.config.plugins@ =~= before);
                        } else {
                            assert(self.config.plugins@[i as int].1 != p);
                        }
                    }
                    change
                },
                None => Change::PluginMissing,
            }
        } else {
            Change::InvalidId
        }
    }
}

} // verus!
