//! The fleet topology: plugin groups, the subsections below each, and the
//! entities below each subsection. Every node carries the authentication key
//! that a connecting plugin has to present. A node owns its children, so
//! dropping a node drops everything below it.

use vstd::prelude::*;
use crate::keyed::{
    KeyedTable, distinct_keys, has_key, lemma_key_index_unique, lookup, with_entry, without_key,
};

verus! {

/// A leaf of the topology: one connecting client.
#[derive(Debug, Clone)]
pub struct Entity {
    pub auth_key: String,
}

/// A group of entities within a plugin group.
#[derive(Debug, Clone)]
pub struct Subsection {
    pub auth_key: String,
    pub entities: KeyedTable<Entity>,
}

/// A top-level plugin group.
#[derive(Debug, Clone)]
pub struct Plugin {
    pub auth_key: String,
    pub subsections: KeyedTable<Subsection>,
}

/// The whole topology, by plugin group.
#[derive(Debug, Clone)]
pub struct Config {
    pub plugins: KeyedTable<Plugin>,
}

/// An entity as plain values.
pub struct EntityView {
    pub auth_key: Seq<char>,
}

/// A subsection as plain values.
pub struct SubsectionView {
    pub auth_key: Seq<char>,
    pub entities: Seq<(Seq<char>, EntityView)>,
}

/// A plugin group as plain values.
pub struct PluginView {
    pub auth_key: Seq<char>,
    pub subsections: Seq<(Seq<char>, SubsectionView)>,
}

/// The topology as plain values.
pub struct ConfigView {
    pub plugins: Seq<(Seq<char>, PluginView)>,
}

impl View for Entity {
    type V = EntityView;

    open spec fn view(&self) -> EntityView {
        EntityView { auth_key: self.auth_key@ }
    }
}

impl View for Subsection {
    type V = SubsectionView;

    open spec fn view(&self) -> SubsectionView {
        SubsectionView { auth_key: self.auth_key@, entities: self.entities@ }
    }
}

impl View for Plugin {
    type V = PluginView;

    open spec fn view(&self) -> PluginView {
        PluginView { auth_key: self.auth_key@, subsections: self.subsections@ }
    }
}

impl View for Config {
    type V = ConfigView;

    open spec fn view(&self) -> ConfigView {
        ConfigView { plugins: self.plugins@ }
    }
}

impl SubsectionView {
    /// A subsection with the given key and no entities.
    pub open spec fn fresh(auth_key: Seq<char>) -> Self {
        SubsectionView { auth_key, entities: Seq::empty() }
    }

    /// Keys are distinct among the entities.
    pub open spec fn wf(self) -> bool {
        distinct_keys(self.entities)
    }

    /// The subsection with entity `e` added under `auth_key`, unless `e` is
    /// there already.
    pub open spec fn with_entity(self, e: Seq<char>, auth_key: Seq<char>) -> Self {
        if has_key(self.entities, e) {
            self
        } else {
            SubsectionView { entities: self.entities.push((e, EntityView { auth_key })), ..self }
        }
    }

    /// The subsection without entity `e`.
    pub open spec fn without_entity(self, e: Seq<char>) -> Self {
        SubsectionView { entities: without_key(self.entities, e), ..self }
    }
}

impl PluginView {
    /// A plugin group with the given key and no subsections.
    pub open spec fn fresh(auth_key: Seq<char>) -> Self {
        PluginView { auth_key, subsections: Seq::empty() }
    }

    /// Keys are distinct among the subsections and below each.
    pub open spec fn wf(self) -> bool {
        &&& distinct_keys(self.subsections)
        &&& forall|i: int| 0 <= i < self.subsections.len() ==> (#[trigger] self.subsections[i]).1.wf()
    }

    /// The plugin group with subsection `s` added under `auth_key`, unless
    /// `s` is there already.
    pub open spec fn with_subsection(self, s: Seq<char>, auth_key: Seq<char>) -> Self {
        if has_key(self.subsections, s) {
            self
        } else {
            PluginView {
                subsections: self.subsections.push((s, SubsectionView::fresh(auth_key))),
                ..self
            }
        }
    }

    /// The plugin group with entity `e` added below subsection `s`. Nothing
    /// changes if `s` is missing or `e` is there already.
    pub open spec fn with_entity(self, s: Seq<char>, e: Seq<char>, auth_key: Seq<char>) -> Self {
        match lookup(self.subsections, s) {
            Some(sub) => PluginView {
                subsections: with_entry(self.subsections, s, sub.with_entity(e, auth_key)),
                ..self
            },
            None => self,
        }
    }

    /// The plugin group without subsection `s` and what it owns.
    pub open spec fn without_subsection(self, s: Seq<char>) -> Self {
        PluginView { subsections: without_key(self.subsections, s), ..self }
    }

    /// The plugin group without entity `e` of subsection `s`.
    pub open spec fn without_entity(self, s: Seq<char>, e: Seq<char>) -> Self {
        match lookup(self.subsections, s) {
            Some(sub) => PluginView {
                subsections: with_entry(self.subsections, s, sub.without_entity(e)),
                ..self
            },
            None => self,
        }
    }
}

impl ConfigView {
    /// A topology without plugin groups.
    pub open spec fn empty() -> Self {
        ConfigView { plugins: Seq::empty() }
    }

    /// Keys are distinct at every level of the topology.
    pub open spec fn wf(self) -> bool {
        &&& distinct_keys(self.plugins)
        &&& forall|i: int| 0 <= i < self.plugins.len() ==> (#[trigger] self.plugins[i]).1.wf()
    }
}

impl Entity {
    /// An entity with the given key.
    pub fn new(auth_key: String) -> (e: Self)
        ensures
            e@ == (EntityView { auth_key: auth_key@ }),
    {
        Entity { auth_key }
    }
}

impl Subsection {
    /// No entity key occurs twice.
    pub open spec fn wf(&self) -> bool {
        self.entities.wf()
    }

    /// The invariant carries over to the view.
    pub proof fn lemma_wf_view(&self)
        requires
            self.wf(),
        ensures
            self@.wf(),
    {
        self.entities.lemma_view();
    }

    /// A subsection with the given key and no entities.
    pub fn new(auth_key: String) -> (s: Self)
        ensures
            s.wf(),
            s@ == SubsectionView::fresh(auth_key@),
    {
        Subsection { auth_key, entities: KeyedTable::new() }
    }

    /// Adds entity `e` under `auth_key` unless it is there already; says
    /// whether it was added.
    pub fn add_entity(&mut self, e: String, auth_key: String) -> (added: bool)
        requires
            old(self).wf(),
        ensures
            final(self).wf(),
            added == !has_key(old(self)@.entities, e@),
            final(self)@ == old(self)@.with_entity(e@, auth_key@),
    {
        if self.entities.contains_key(e.as_str()) {
            false
        } else {
            self.entities.push(e, Entity::new(auth_key));
            true
        }
    }

    /// Removes entity `e`; says whether it was there.
    pub fn remove_entity(&mut self, e: &str) -> (removed: bool)
        requires
            old(self).wf(),
        ensures
            final(self).wf(),
            removed == has_key(old(self)@.entities, e@),
            final(self)@ == old(self)@.without_entity(e@),
    {
        self.entities.remove(e).is_some()
    }
}

impl Default for Subsection {
    fn default() -> (s: Self)
        ensures
            s.wf(),
            s@ == SubsectionView::fresh(Seq::empty()),
    {
        Subsection::new(String::new())
    }
}

/// What became of a request to add or remove a node below a plugin group.
#[derive(Clone, Copy, Debug, PartialEq, Eq, Structural)]
pub enum Change {
    /// The node was added.
    Added,
    /// The node was removed, with everything below it.
    Removed,
    /// A node of that name was there already; nothing changed.
    AlreadyExists,
    /// No node of that name was there; nothing changed.
    NotFound,
    /// The plugin group that should hold the node is missing.
    PluginMissing,
    /// The subsection that should hold the node is missing.
    SubsectionMissing,
    /// The identifier does not have the number of components that the
    /// operation asks for.
    InvalidId,
}

impl Change {
    /// Whether the topology changed, so that it has to be persisted.
    pub open spec fn changed(self) -> bool {
        self == Change::Added || self == Change::Removed
    }

    /// Whether the topology changed, so that it has to be persisted.
    pub fn persists(&self) -> (b: bool)
        ensures
            b == self.changed(),
    {
        match self {
            Change::Added => true,
            Change::Removed => true,
            _ => false,
        }
    }
}

/// What is on disk after an operation, if the store is written out exactly
/// when the operation says that it changed.
pub open spec fn written<T>(disk: T, memory: T, change: Change) -> T {
    if change.changed() {
        memory
    } else {
        disk
    }
}

/// A store that is written out whenever an operation says that it changed
/// stays equal to what is on disk: if disk and memory agree before an
/// operation that reports a change exactly when it makes one, they agree
/// after it.
pub proof fn lemma_disk_follows_memory<T>(disk: T, before: T, after: T, change: Change)
    requires
        disk == before,
        change.changed() == (after != before),
    ensures
        written(disk, after, change) == after,
{
}

impl Plugin {
    /// No subsection key occurs twice, and every subsection is well formed.
    pub open spec fn wf(&self) -> bool {
        &&& self.subsections.wf()
        &&& forall|i: int|
            0 <= i < self.subsections.values().len() ==> (#[trigger] self.subsections.values()[i]).wf()
    }

    /// The invariant carries over to the view.
    pub proof fn lemma_wf_view(&self)
        requires
            self.wf(),
        ensures
            self@.wf(),
    {
        self.subsections.lemma_view();
        assert forall|i: int| 0 <= i < self@.subsections.len() implies (
        #[trigger] self@.subsections[i]).1.wf() by {
            self.subsections.values()[i].lemma_wf_view();
        }
    }

    /// A plugin group with the given key and no subsections.
    pub fn new(auth_key: String) -> (p: Self)
        ensures
            p.wf(),
            p@ == PluginView::fresh(auth_key@),
    {
        Plugin { auth_key, subsections: KeyedTable::new() }
    }

    /// Adds subsection `s` under `auth_key` unless it is there already; says
    /// whether it was added.
    pub fn add_subsection(&mut self, s: String, auth_key: String) -> (added: bool)
        requires
            old(self).wf(),
        ensures
            final(self).wf(),
            added == !has_key(old(self)@.subsections, s@),
            final(self)@ == old(self)@.with_subsection(s@, auth_key@),
    {
        if self.subsections.contains_key(s.as_str()) {
            false
        } else {
            self.subsections.push(s, Subsection::new(auth_key));
            true
        }
    }

    /// Adds entity `e` below subsection `s`.
    pub fn add_entity(&mut self, s: &str, e: String, auth_key: String) -> (change: Change)
        requires
            old(self).wf(),
        ensures
            final(self).wf(),
            final(self)@ == old(self)@.with_entity(s@, e@, auth_key@),
            change == match lookup(old(self)@.subsections, s@) {
                None => Change::SubsectionMissing,
                Some(sub) => if has_key(sub.entities, e@) {
                    Change::AlreadyExists
                } else {
                    Change::Added
                },
            },
            change.changed() == (final(self)@ != old(self)@),
    {
        proof {
            self.subsections.lemma_view();
        }
        let ghost before = self.subsections@;
        match self.subsections.position(s) {
            Some(i) => {
                let sub = self.subsections.value_at_mut(i);
                let added = sub.add_entity(e, auth_key);
                proof {
                    lemma_key_index_unique(before, i as int);
                    let b = before[i as int].1;
                    assert(self.subsections@ =~= with_entry(before, s@, b.with_entity(e@, auth_key@)));
                    if !added {
                        assert(self.subsections@ =~= before);
                    } else {
                        assert(self.subsections@[i as int].1.entities.len() == b.entities.len() + 1);
                    }
                }
                if added {
                    Change::Added
                } else {
                    Change::AlreadyExists
                }
            },
            None => Change::SubsectionMissing,
        }
    }

    /// Removes subsection `s` with its entities; says whether it was there.
    pub fn remove_subsection(&mut self, s: &str) -> (removed: bool)
        requires
            old(self).wf(),
        ensures
            final(self).wf(),
            removed == has_key(old(self)@.subsections, s@),
            final(self)@ == old(self)@.without_subsection(s@),
    {
        let ghost vals = self.subsections.values();
        let removed = self.subsections.remove(s).is_some();
        proof {
            if removed {
                let at = old(self).subsections.slot(s@);
                old(self).subsections.lemma_view();
                assert forall|i: int| 0 <= i < self.subsections.values().len() implies (
                #[trigger] self.subsections.values()[i]).wf() by {
                    let j = if i < at { i } else { i + 1 };
                    assert(self.subsections.values()[i] == vals[j]);
                }
            }
        }
        removed
    }

    /// Removes entity `e` of subsection `s`.
    pub fn remove_entity(&mut self, s: &str, e: &str) -> (change: Change)
        requires
            old(self).wf(),
        ensures
            final(self).wf(),
            final(self)@ == old(self)@.without_entity(s@, e@),
            change == match lookup(old(self)@.subsections, s@) {
                None => Change::SubsectionMissing,
                Some(sub) => if has_key(sub.entities, e@) {
                    Change::Removed
                } else {
                    Change::NotFound
                },
            },
            change.changed() == (final(self)@ != old(self)@),
    {
        proof {
            self.subsections.lemma_view();
        }
        let ghost before = self.subsections@;
        match self.subsections.position(s) {
            Some(i) => {
                let sub = self.subsections.value_at_mut(i);
                let removed = sub.remove_entity(e);
                proof {
                    lemma_key_index_unique(before, i as int);
                    let b = before[i as int].1;
                    assert(self.subsections@ =~= with_entry(before, s@, b.without_entity(e@)));
                    if !removed {
                        assert(self.subsections@ =~= before);
                    } else {
                        assert(self.subsections@[i as int].1.entities.len() == b.entities.len() - 1);
                    }
                }
                if removed {
                    Change::Removed
                } else {
                    Change::NotFound
                }
            },
            None => Change::SubsectionMissing,
        }
    }
}

impl Default for Plugin {
    fn default() -> (p: Self)
        ensures
            p.wf(),
            p@ == PluginView::fresh(Seq::empty()),
    {
        Plugin::new(String::new())
    }
}

impl Config {
    /// No plugin key occurs twice, and every plugin group is well formed.
    pub open spec fn wf(&self) -> bool {
        &&& self.plugins.wf()
        &&& forall|i: int|
            0 <= i < self.plugins.values().len() ==> (#[trigger] self.plugins.values()[i]).wf()
    }

    /// The invariant carries over to the view.
    pub proof fn lemma_wf_view(&self)
        requires
            self.wf(),
        ensures
            self@.wf(),
    {
        self.plugins.lemma_view();
        assert forall|i: int| 0 <= i < self@.plugins.len() implies (#[trigger] self@.plugins[i]).1.wf() by {
            self.plugins.values()[i].lemma_wf_view();
        }
    }

    /// A topology without plugin groups.
    pub fn new() -> (c: Self)
        ensures
            c.wf(),
            c@ == ConfigView::empty(),
    {
        Config { plugins: KeyedTable::new() }
    }
}

impl Default for Config {
    fn default() -> (c: Self)
        ensures
            c.wf(),
            c@ == ConfigView::empty(),
    {
        Config::new()
    }
}

} // verus!
