//! The directive engine: it owns the directive tree, adds and removes rules
//! by target identifier, and answers a status report with the command of the
//! first rule that fires, looking at the reporting entity first, then at its
//! subsection, then at its plugin group.

use vstd::prelude::*;
use crate::directives::{
    DirectiveConfig, DirectiveConfigView, PluginDirectives, Rule, RuleView, find_rule_in_vec,
    first_match, has_match, is_first_match, lemma_without_rule,
};
use crate::config::Change;
use crate::keyed::{lookup, with_entry, has_key, lemma_with_entry, lemma_key_index_unique};
use crate::text::{id_parts, split_id};

verus! {

/// Whether `target` can name a bucket: it is not empty and has one, two or
/// three components. Anything else is a malformed identifier.
pub open spec fn is_target(target: Seq<char>) -> bool {
    target.len() > 0 && id_parts(target).len() <= 3
}

/// The tree after adding `rule` for `target`. One component names a plugin
/// group, two a subsection, three an entity; buckets on the way are created
/// if missing. A malformed target leaves the tree as it is.
pub open spec fn with_rule(cfg: DirectiveConfigView, target: Seq<char>, rule: RuleView) -> DirectiveConfigView {
    let parts = id_parts(target);
    if !is_target(target) {
        cfg
    } else {
        let p = cfg.plugin(parts[0]);
        let grown = if parts.len() == 3 {
            p.with_entity_rule(parts[1], parts[2], rule)
        } else if parts.len() == 2 {
            p.with_subsection_rule(parts[1], rule)
        } else {
            p.with_rule(rule)
        };
        DirectiveConfigView { plugins: with_entry(cfg.plugins, parts[0], grown) }
    }
}

/// The bucket that `target` names, if the tree has it: with one component
/// the plugin group's, with two the subsection's, with three the entity's.
/// A malformed target names none.
pub open spec fn bucket_at(cfg: DirectiveConfigView, target: Seq<char>) -> Option<Seq<RuleView>> {
    let parts = id_parts(target);
    match lookup(cfg.plugins, parts[0]) {
        None => None,
        Some(p) => if !is_target(target) {
            None
        } else if parts.len() == 3 {
            match lookup(p.subsections, parts[1]) {
                None => None,
                Some(s) => match lookup(s.entities, parts[2]) {
                    None => None,
                    Some(e) => Some(e.directives),
                },
            }
        } else if parts.len() == 2 {
            match lookup(p.subsections, parts[1]) {
                None => None,
                Some(s) => Some(s.directives),
            }
        } else {
            Some(p.directives)
        },
    }
}

/// Whether the bucket that `target` names holds a rule equal to `rule`.
pub open spec fn holds_rule_at(cfg: DirectiveConfigView, target: Seq<char>, rule: RuleView) -> bool {
    match bucket_at(cfg, target) {
        Some(b) => b.contains(rule),
        None => false,
    }
}

/// The tree after dropping, from the bucket that `target` names, every rule
/// equal to `rule`. A malformed target leaves the tree as it is.
pub open spec fn without_rule_at(cfg: DirectiveConfigView, target: Seq<char>, rule: RuleView) -> DirectiveConfigView {
    let parts = id_parts(target);
    match lookup(cfg.plugins, parts[0]) {
        None => cfg,
        Some(p) => if !is_target(target) {
            cfg
        } else {
            let shrunk = if parts.len() == 3 {
                p.without_entity_rule(parts[1], parts[2], rule)
            } else if parts.len() == 2 {
                p.without_subsection_rule(parts[1], rule)
            } else {
                p.without_rule(rule)
            };
            DirectiveConfigView { plugins: with_entry(cfg.plugins, parts[0], shrunk) }
        },
    }
}

/// The rule that answers `status` reported by `reporter`: the first match in
/// the entity's bucket, else in its subsection's, else in its plugin group's.
/// A reporter that is not a three-component identifier gets no answer.
pub open spec fn dispatch_of(cfg: DirectiveConfigView, reporter: Seq<char>, status: Seq<char>) -> Option<RuleView> {
    let parts = id_parts(reporter);
    if parts.len() != 3 {
        None
    } else {
        let p = cfg.plugin(parts[0]);
        let s = p.subsection(parts[1]);
        let e = s.entity(parts[2]);
        if has_match(e.directives, status) {
            first_match(e.directives, status)
        } else if has_match(s.directives, status) {
            first_match(s.directives, status)
        } else {
            first_match(p.directives, status)
        }
    }
}

/// Whether `rule` stands in the bucket of the reporting entity, of its
/// subsection or of its plugin group.
pub open spec fn in_ancestry(cfg: DirectiveConfigView, reporter: Seq<char>, rule: RuleView) -> bool {
    let parts = id_parts(reporter);
    let p = cfg.plugin(parts[0]);
    let s = p.subsection(parts[1]);
    let e = s.entity(parts[2]);
    parts.len() == 3 && (e.directives.contains(rule) || s.directives.contains(rule)
        || p.directives.contains(rule))
}

/// Every dispatched command comes from a rule at some level of the
/// reporter's ancestry, and that rule fires on the reported status.
pub proof fn lemma_dispatch_has_rule(cfg: DirectiveConfigView, reporter: Seq<char>, status: Seq<char>)
    ensures
        match dispatch_of(cfg, reporter, status) {
            Some(r) => r.if_status_is == status && in_ancestry(cfg, reporter, r),
            None => true,
        },
{
    let parts = id_parts(reporter);
    if parts.len() == 3 {
        let p = cfg.plugin(parts[0]);
        let s = p.subsection(parts[1]);
        let e = s.entity(parts[2]);
        lemma_first_match_member(e.directives, status);
        lemma_first_match_member(s.directives, status);
        lemma_first_match_member(p.directives, status);
    }
}

/// A first match is a rule of the list and fires on the status.
pub proof fn lemma_first_match_member(rules: Seq<RuleView>, status: Seq<char>)
    ensures
        match first_match(rules, status) {
            Some(r) => rules.contains(r) && r.if_status_is == status,
            None => !has_match(rules, status),
        },
{
    if has_match(rules, status) {
        let k = choose|k: int| 0 <= k < rules.len() && (#[trigger] rules[k]).if_status_is == status;
        lemma_least_match(rules, status, k);
        let i = choose|i: int| is_first_match(rules, status, i);
        assert(is_first_match(rules, status, i));
        assert(rules[i] == first_match(rules, status).unwrap());
    }
}

/// If some rule up to position `k` fires, one of them is the first to fire.
proof fn lemma_least_match(rules: Seq<RuleView>, status: Seq<char>, k: int)
    requires
        0 <= k < rules.len(),
        rules[k].if_status_is == status,
    ensures
        exists|i: int| is_first_match(rules, status, i),
    decreases k,
{
    if exists|j: int| 0 <= j < k && (#[trigger] rules[j]).if_status_is == status {
        let j = choose|j: int| 0 <= j < k && (#[trigger] rules[j]).if_status_is == status;
        lemma_least_match(rules, status, j);
    } else {
        assert(is_first_match(rules, status, k));
    }
}

/// Removal drops every exact match: afterwards the bucket that the target
/// names holds no rule equal to the removed one.
pub proof fn lemma_remove_clears(cfg: DirectiveConfigView, target: Seq<char>, rule: RuleView)
    requires
        cfg.wf(),
    ensures
        !holds_rule_at(without_rule_at(cfg, target, rule), target, rule),
{
    let parts = id_parts(target);
    match lookup(cfg.plugins, parts[0]) {
        None => {},
        Some(p) => if is_target(target) {
            let pi = crate::keyed::key_index(cfg.plugins, parts[0]);
            assert(cfg.plugins[pi].1 == p);
            assert(p.wf());
            lemma_with_entry(
                cfg.plugins,
                parts[0],
                if parts.len() == 3 {
                    p.without_entity_rule(parts[1], parts[2], rule)
                } else if parts.len() == 2 {
                    p.without_subsection_rule(parts[1], rule)
                } else {
                    p.without_rule(rule)
                },
            );
            if parts.len() == 3 {
                match lookup(p.subsections, parts[1]) {
                    None => {},
                    Some(s) => {
                        let si = crate::keyed::key_index(p.subsections, parts[1]);
                        assert(p.subsections[si].1 == s);
                        assert(s.wf());
                        lemma_with_entry(
                            p.subsections,
                            parts[1],
                            s.without_entity_rule(parts[2], rule),
                        );
                        match lookup(s.entities, parts[2]) {
                            None => {},
                            Some(e) => {
                                lemma_with_entry(s.entities, parts[2], e.without_rule(rule));
                                lemma_without_rule(e.directives, rule);
                            },
                        }
                    },
                }
            } else if parts.len() == 2 {
                match lookup(p.subsections, parts[1]) {
                    None => {},
                    Some(s) => {
                        lemma_with_entry(p.subsections, parts[1], s.without_rule(rule));
                        lemma_without_rule(s.directives, rule);
                    },
                }
            } else {
                lemma_without_rule(p.directives, rule);
            }
        },
    }
}

/// A malformed target names no bucket: adding for it and removing for it
/// both leave the tree as it is.
pub proof fn lemma_malformed_target_changes_nothing(cfg: DirectiveConfigView, target: Seq<char>, rule: RuleView)
    requires
        !is_target(target),
    ensures
        with_rule(cfg, target, rule) == cfg,
        without_rule_at(cfg, target, rule) == cfg,
        bucket_at(cfg, target) is None,
        !holds_rule_at(cfg, target, rule),
{
}

/// A rule added for a well-formed target stands in the bucket that the
/// target names.
pub proof fn lemma_add_holds(cfg: DirectiveConfigView, target: Seq<char>, rule: RuleView)
    requires
        cfg.wf(),
        is_target(target),
    ensures
        holds_rule_at(with_rule(cfg, target, rule), target, rule),
{
    let parts = id_parts(target);
    crate::text::lemma_split_len(target, '_');
    let p = cfg.plugin(parts[0]);
    if lookup(cfg.plugins, parts[0]) is Some {
        let pi = crate::keyed::key_index(cfg.plugins, parts[0]);
        assert(cfg.plugins[pi].1 == p);
    }
    assert(p.wf());
    let grown = if parts.len() == 3 {
        p.with_entity_rule(parts[1], parts[2], rule)
    } else if parts.len() == 2 {
        p.with_subsection_rule(parts[1], rule)
    } else {
        p.with_rule(rule)
    };
    lemma_with_entry(cfg.plugins, parts[0], grown);
    if parts.len() == 3 {
        let s = p.subsection(parts[1]);
        if lookup(p.subsections, parts[1]) is Some {
            let si = crate::keyed::key_index(p.subsections, parts[1]);
            assert(p.subsections[si].1 == s);
        }
        assert(s.wf());
        lemma_with_entry(p.subsections, parts[1], s.with_entity_rule(parts[2], rule));
        let e = s.entity(parts[2]);
        lemma_with_entry(s.entities, parts[2], e.with_rule(rule));
        assert(e.with_rule(rule).directives.last() == rule);
    } else if parts.len() == 2 {
        let s = p.subsection(parts[1]);
        lemma_with_entry(p.subsections, parts[1], s.with_rule(rule));
        assert(s.with_rule(rule).directives.last() == rule);
    } else {
        assert(p.with_rule(rule).directives.last() == rule);
    }
}

/// The engine that authors and evaluates directives.
#[derive(Debug)]
pub struct DirectiveEngine {
    config: DirectiveConfig,
}

impl View for DirectiveEngine {
    type V = DirectiveConfigView;

    closed spec fn view(&self) -> DirectiveConfigView {
        self.config@
    }
}

impl DirectiveEngine {
    /// The engine's invariant: the tree it owns is well formed.
    pub closed spec fn wf(&self) -> bool {
        self.config.wf()
    }

    /// The invariant carries over to the view.
    pub proof fn lemma_wf_view(&self)
        requires
            self.wf(),
        ensures
            self@.wf(),
    {
        self.config.lemma_wf_view();
    }

    /// An engine over the given tree.
    pub fn new(config: DirectiveConfig) -> (engine: Self)
        requires
            config.wf(),
        ensures
            engine.wf(),
            engine@ == config@,
    {
        DirectiveEngine { config }
    }

    /// The tree the engine works on.
    pub fn get_config(&self) -> (config: &DirectiveConfig)
        requires
            self.wf(),
        ensures
            config.wf(),
            config@ == self@,
    {
        &self.config
    }

    /// Adds `rule` for `target_id`, at the end of the bucket that the
    /// identifier names; buckets on the way are created if missing. An
    /// identifier that is empty or has more than three components is
    /// malformed: the call is refused and the tree stays as it is. The tree
    /// has to be persisted exactly when the answer says that it changed.
    pub fn add_and_save_rule(&mut self, target_id: &str, rule: Rule) -> (change: Change)
        requires
            old(self).wf(),
        ensures
            final(self).wf(),
            final(self)@ == with_rule(old(self)@, target_id@, rule@),
            change == if is_target(target_id@) {
                Change::Added
            } else {
                Change::InvalidId
            },
            change.changed() == (final(self)@ != old(self)@),
    {
        proof {
            self.config.plugins.lemma_view();
        }
        let parts = split_id(target_id);
        let ghost ids = id_parts(target_id@);
        let ghost before = self.config.plugins@;
        assert(forall|i: int| 0 <= i < parts@.len() ==> #[trigger] parts@[i]@ == ids[i]);
        if target_id.is_empty() || parts.len() > 3 {
            return Change::InvalidId;
        }
        let i = self.config.plugins.slot_or_insert(parts[0].as_str(), PluginDirectives::new());
        let plugin = self.config.plugins.value_at_mut(i);
        if parts.len() == 3 {
            plugin.add_entity_rule(parts[1].as_str(), parts[2].as_str(), rule);
        } else if parts.len() == 2 {
            plugin.add_subsection_rule(parts[1].as_str(), rule);
        } else {
            plugin.add_rule(rule);
        }
        proof {
            let p = old(self)@.plugin(ids[0]);
            if has_key(before, ids[0]) {
                lemma_key_index_unique(before, i as int);
            }
            let grown = if ids.len() == 3 {
                p.with_entity_rule(ids[1], ids[2], rule@)
            } else if ids.len() == 2 {
                p.with_subsection_rule(ids[1], rule@)
            } else {
                p.with_rule(rule@)
            };
            assert(self.config.plugins@ =~= with_entry(before, ids[0], grown));
            if has_key(before, ids[0]) {
                assert(self.config.plugins@[i as int].1 != before[i as int].1);
            } else {
                assert(self.config.plugins@.len() == before.len() + 1);
            }
        }
        Change::Added
    }

    /// Drops, from the bucket that `target_id` names, every rule equal to
    /// `rule_to_remove`. An identifier that is empty or has more than three
    /// components is malformed: the call is refused. The tree changes, and
    /// has to be persisted, exactly when a rule went.
    pub fn remove_and_save_rule(&mut self, target_id: &str, rule_to_remove: &Rule) -> (change: Change)
        requires
            old(self).wf(),
        ensures
            final(self).wf(),
            change == if !is_target(target_id@) {
                Change::InvalidId
            } else if holds_rule_at(old(self)@, target_id@, rule_to_remove@) {
                Change::Removed
            } else {
                Change::NotFound
            },
            final(self)@ == without_rule_at(old(self)@, target_id@, rule_to_remove@),
            change.changed() == (final(self)@ != old(self)@),
    {
        proof {
            self.config.plugins.lemma_view();
        }
        let parts = split_id(target_id);
        let ghost ids = id_parts(target_id@);
        let ghost before = self.config.plugins@;
        assert(forall|i: int| 0 <= i < parts@.len() ==> #[trigger] parts@[i]@ == ids[i]);
        if target_id.is_empty() || parts.len() > 3 {
            return Change::InvalidId;
        }
        match self.config.plugins.position(parts[0].as_str()) {
            Some(i) => {
                let plugin = self.config.plugins.value_at_mut(i);
                let dropped = if parts.len() == 3 {
                    plugin.remove_entity_rule(parts[1].as_str(), parts[2].as_str(), rule_to_remove)
                } else if parts.len() == 2 {
                    plugin.remove_subsection_rule(parts[1].as_str(), rule_to_remove)
                } else {
                    plugin.remove_rule(rule_to_remove)
                };
                proof {
                    lemma_key_index_unique(before, i as int);
                    let p = before[i as int].1;
                    let shrunk = if ids.len() == 3 {
                        p.without_entity_rule(ids[1], ids[2], rule_to_remove@)
                    } else if ids.len() == 2 {
                        p.without_subsection_rule(ids[1], rule_to_remove@)
                    } else {
                        p.without_rule(rule_to_remove@)
                    };
                    assert(self.config.plugins@ =~= with_entry(before, ids[0], shrunk));
                    if !dropped {
                        assert(self.config.plugins@ =~= before);
                    }
                }
                if dropped {
                    Change::Removed
                } else {
                    Change::NotFound
                }
            },
            None => Change::NotFound,
        }
    }

    /// The command for `status` reported by `entity_id_str`: target and JSON
    /// text of the first rule that fires, the entity's own bucket first, then
    /// its subsection's, then its plugin group's.
    pub fn process_report(&self, entity_id_str: &str, status: &str) -> (command: Option<(String, String)>)
        requires
            self.wf(),
        ensures
            match command {
                Some((target, json)) => match dispatch_of(self@, entity_id_str@, status@) {
                    Some(r) => r.then_command_target == target@ && r.then_command_json == json@,
                    None => false,
                },
                None => dispatch_of(self@, entity_id_str@, status@) is None,
            },
    {
        let parts = split_id(entity_id_str);
        let ghost ids = id_parts(entity_id_str@);
        assert(forall|i: int| 0 <= i < parts@.len() ==> #[trigger] parts@[i]@ == ids[i]);
        if parts.len() != 3 {
            return None;
        }
        let plugin = match self.config.plugins.get(parts[0].as_str()) {
            Some(p) => p,
            None => {
                proof {
                    lemma_no_match_in_empty(status@);
                }
                return None;
            },
        };
        match plugin.subsections.get(parts[1].as_str()) {
            Some(sub) => {
                match sub.entities.get(parts[2].as_str()) {
                    Some(ent) => {
                        match find_rule_in_vec(ent.directives.as_slice(), status) {
                            Some(rule) => {
                                return Some(
                                    (
                                        rule.then_command_target.clone(),
                                        rule.then_command_json.clone(),
                                    ),
                                );
                            },
                            None => {},
                        }
                    },
                    None => {
                        proof {
                            lemma_no_match_in_empty(status@);
                        }
                    },
                }
                match find_rule_in_vec(sub.directives.as_slice(), status) {
                    Some(rule) => {
                        return Some(
                            (rule.then_command_target.clone(), rule.then_command_json.clone()),
                        );
                    },
                    None => {},
                }
            },
            None => {
                proof {
                    lemma_no_match_in_empty(status@);
                }
            },
        }
        match find_rule_in_vec(plugin.directives.as_slice(), status) {
            Some(rule) => Some((rule.then_command_target.clone(), rule.then_command_json.clone())),
            None => None,
        }
    }
}

/// An empty bucket has no rule that fires.
proof fn lemma_no_match_in_empty(status: Seq<char>)
    ensures
        !has_match(Seq::<RuleView>::empty(), status),
        first_match(Seq::<RuleView>::empty(), status) is None,
{
}

} // verus!
