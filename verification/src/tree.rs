//! The topology and the directives as rows of an outline, for the console to
//! show and to navigate. A plugin group or a subsection shows what is below
//! it only while its identifier is among the expanded ones.

use vstd::prelude::*;
use crate::config::{Config, EntityView, Plugin, PluginView, Subsection, SubsectionView};
use crate::directives::{
    DirectiveConfig, DirectiveConfigView, PluginDirectives, PluginDirectivesView, Rule, RuleView,
    SubsectionDirectives, SubsectionDirectivesView, rules_view,
};
use crate::text::{holds_text, views_of};

verus! {

/// What a row of the directive outline stands for.
#[derive(Clone, Copy, Debug, PartialEq, Eq, Structural)]
pub enum NodeType {
    Plugin,
    Subsection,
    Entity,
    Rule,
}

/// A row of the directive outline.
#[derive(Clone, Debug)]
pub struct TreeItem {
    pub id: String,
    pub display_text: String,
    pub node_type: NodeType,
    pub parent_id: String,
    pub rule: Option<Rule>,
}

/// A row of the directive outline as plain values.
pub struct TreeItemView {
    pub id: Seq<char>,
    pub display_text: Seq<char>,
    pub node_type: NodeType,
    pub parent_id: Seq<char>,
    pub rule: Option<RuleView>,
}

impl View for TreeItem {
    type V = TreeItemView;

    open spec fn view(&self) -> TreeItemView {
        TreeItemView {
            id: self.id@,
            display_text: self.display_text@,
            node_type: self.node_type,
            parent_id: self.parent_id@,
            rule: match self.rule {
                Some(r) => Some(r@),
                None => None,
            },
        }
    }
}

/// A row of the topology outline.
#[derive(Clone, Debug)]
pub struct ConfigTreeItem {
    pub id: String,
    pub display_text: String,
    pub is_expandable: bool,
}

/// A row of the topology outline as plain values.
pub struct ConfigTreeItemView {
    pub id: Seq<char>,
    pub display_text: Seq<char>,
    pub is_expandable: bool,
}

impl View for ConfigTreeItem {
    type V = ConfigTreeItemView;

    open spec fn view(&self) -> ConfigTreeItemView {
        ConfigTreeItemView {
            id: self.id@,
            display_text: self.display_text@,
            is_expandable: self.is_expandable,
        }
    }
}

/// The views of a list of directive rows.
pub open spec fn rows_view(v: Seq<TreeItem>) -> Seq<TreeItemView> {
    v.map_values(|t: TreeItem| t@)
}

/// The views of a list of topology rows.
pub open spec fn config_rows_view(v: Seq<ConfigTreeItem>) -> Seq<ConfigTreeItemView> {
    v.map_values(|t: ConfigTreeItem| t@)
}

/// The mark in front of a node that can be expanded: it points down while
/// the node is expanded and to the right while it is not.
pub open spec fn marker(expanded: bool) -> Seq<char> {
    if expanded {
        "▼"@
    } else {
        "►"@
    }
}

/// The identifier of a child: the parent's, an underscore, the child's own
/// name.
pub open spec fn child_id(parent: Seq<char>, name: Seq<char>) -> Seq<char> {
    parent + "_"@ + name
}

/// The text of a plugin group's row.
pub open spec fn plugin_text(p: Seq<char>, expanded: bool) -> Seq<char> {
    marker(expanded) + " Plugin: "@ + p
}

/// The text of a subsection's row.
pub open spec fn subsection_text(s: Seq<char>, expanded: bool) -> Seq<char> {
    "   "@ + marker(expanded) + " Subsection: "@ + s
}

/// The text of an entity's row.
pub open spec fn entity_text(e: Seq<char>) -> Seq<char> {
    "      └─ Entity: "@ + e
}

/// The row of a rule that hangs at `owner`, shown behind `indent`.
pub open spec fn rule_row(owner: Seq<char>, indent: Seq<char>, r: RuleView) -> TreeItemView {
    TreeItemView {
        id: owner + "-rule-"@ + r.if_status_is,
        display_text: indent + "└─ IF '"@ + r.if_status_is + "' THEN Target: "@
            + r.then_command_target + " -> "@ + r.then_command_json,
        node_type: NodeType::Rule,
        parent_id: owner,
        rule: Some(r),
    }
}

/// The rows of the rules of one bucket, in the bucket's order.
pub open spec fn rule_rows(owner: Seq<char>, indent: Seq<char>, rules: Seq<RuleView>) -> Seq<TreeItemView> {
    rules.map_values(|r: RuleView| rule_row(owner, indent, r))
}

/// The rows of the entities of subsection `sub_id`, each followed by the
/// rows of its rules.
pub open spec fn entity_rows(sub_id: Seq<char>, entities: Seq<(Seq<char>, EntityView)>, buckets: SubsectionDirectivesView) -> Seq<TreeItemView>
    decreases entities.len(),
{
    if entities.len() == 0 {
        Seq::empty()
    } else {
        let e = entities.last().0;
        entity_rows(sub_id, entities.drop_last(), buckets).push(
            TreeItemView {
                id: child_id(sub_id, e),
                display_text: entity_text(e),
                node_type: NodeType::Entity,
                parent_id: sub_id,
                rule: None,
            },
        ) + rule_rows(child_id(sub_id, e), "         "@, buckets.entity(e).directives)
    }
}

/// The rows of the subsections of plugin group `p`: each subsection, the
/// rows of its rules and, while it is expanded, the rows of its entities.
pub open spec fn subsection_rows(p: Seq<char>, subsections: Seq<(Seq<char>, SubsectionView)>, buckets: PluginDirectivesView, expanded: Seq<Seq<char>>) -> Seq<TreeItemView>
    decreases subsections.len(),
{
    if subsections.len() == 0 {
        Seq::empty()
    } else {
        let s = subsections.last().0;
        let id = child_id(p, s);
        let open = expanded.contains(id);
        subsection_rows(p, subsections.drop_last(), buckets, expanded).push(
            TreeItemView {
                id,
                display_text: subsection_text(s, open),
                node_type: NodeType::Subsection,
                parent_id: p,
                rule: None,
            },
        ) + rule_rows(id, "      "@, buckets.subsection(s).directives) + if open {
            entity_rows(id, subsections.last().1.entities, buckets.subsection(s))
        } else {
            Seq::empty()
        }
    }
}

/// The rows of the directive outline: each plugin group of the topology,
/// the rows of its rules and, while it is expanded, the rows of its
/// subsections.
pub open spec fn plugin_rows(plugins: Seq<(Seq<char>, PluginView)>, directives: DirectiveConfigView, expanded: Seq<Seq<char>>) -> Seq<TreeItemView>
    decreases plugins.len(),
{
    if plugins.len() == 0 {
        Seq::empty()
    } else {
        let p = plugins.last().0;
        let open = expanded.contains(p);
        plugin_rows(plugins.drop_last(), directives, expanded).push(
            TreeItemView {
                id: p,
                display_text: plugin_text(p, open),
                node_type: NodeType::Plugin,
                parent_id: Seq::empty(),
                rule: None,
            },
        ) + rule_rows(p, "   "@, directives.plugin(p).directives) + if open {
            subsection_rows(p, plugins.last().1.subsections, directives.plugin(p), expanded)
        } else {
            Seq::empty()
        }
    }
}

/// `parent`, an underscore and `name`, as one text.
pub fn join_id(parent: &str, name: &str) -> (id: String)
    ensures
        id@ == child_id(parent@, name@),
{
    let mut id = String::new();
    assert(id@ + parent@ =~= parent@);
    id.append(parent);
    id.append("_");
    id.append(name);
    id
}

/// The mark in front of a node that can be expanded.
fn marker_text(expanded: bool) -> (m: &'static str)
    ensures
        m@ == marker(expanded),
{
    if expanded {
        "▼"
    } else {
        "►"
    }
}

/// Appends the rows of the rules of one bucket.
fn push_rule_rows(items: &mut Vec<TreeItem>, owner: &str, indent: &str, rules: &Vec<Rule>)
    ensures
        rows_view(final(items)@) == rows_view(old(items)@) + rule_rows(
            owner@,
            indent@,
            rules_view(rules@),
        ),
{
    let ghost base = rows_view(items@);
    let ghost all = rule_rows(owner@, indent@, rules_view(rules@));
    let n = rules.len();
    let mut i: usize = 0;
    assert(base + all.take(0) =~= base);
    while i < n
        invariant
            n == rules@.len(),
            all == rule_rows(owner@, indent@, rules_view(rules@)),
            i <= n,
            rows_view(items@) == base + all.take(i as int),
        decreases n - i,
    {
        let rule = &rules[i];
        let mut id = String::new();
        assert(id@ + owner@ =~= owner@);
        id.append(owner);
        id.append("-rule-");
        id.append(rule.if_status_is.as_str());
        let mut text = String::new();
        assert(text@ + indent@ =~= indent@);
        text.append(indent);
        text.append("└─ IF '");
        text.append(rule.if_status_is.as_str());
        text.append("' THEN Target: ");
        text.append(rule.then_command_target.as_str());
        text.append(" -> ");
        text.append(rule.then_command_json.as_str());
        let item = TreeItem {
            id,
            display_text: text,
            node_type: NodeType::Rule,
            parent_id: owner.to_owned(),
            rule: Some(rule.clone()),
        };
        let ghost before = rows_view(items@);
        items.push(item);
        proof {
            assert(item@ == rule_row(owner@, indent@, rules@[i as int]@));
            assert(all[i as int] == rule_row(owner@, indent@, rules_view(rules@)[i as int]));
            assert(rows_view(items@) =~= before.push(item@));
            assert(base + all.take(i + 1) =~= (base + all.take(i as int)).push(all[i as int]));
        }
        i = i + 1;
    }
    assert(all.take(n as int) =~= all);
}

/// Appends the rows of the entities of a subsection.
fn push_entity_rows(items: &mut Vec<TreeItem>, sub_id: &str, subsection: &Subsection, buckets: Option<&SubsectionDirectives>)
    requires
        subsection.wf(),
        buckets is Some ==> buckets.unwrap().wf(),
    ensures
        rows_view(final(items)@) == rows_view(old(items)@) + entity_rows(
            sub_id@,
            subsection@.entities,
            match buckets {
                Some(b) => b@,
                None => SubsectionDirectivesView::empty(),
            },
        ),
{
    let ghost base = rows_view(items@);
    let ghost entities = subsection@.entities;
    let ghost bv = match buckets {
        Some(b) => b@,
        None => SubsectionDirectivesView::empty(),
    };
    let n = subsection.entities.len();
    let mut i: usize = 0;
    assert(entities.take(0) =~= Seq::<(Seq<char>, EntityView)>::empty());
    assert(base + Seq::<TreeItemView>::empty() =~= base);
    while i < n
        invariant
            subsection.wf(),
            buckets is Some ==> buckets.unwrap().wf(),
            entities == subsection@.entities,
            bv == match buckets {
                Some(b) => b@,
                None => SubsectionDirectivesView::empty(),
            },
            n == entities.len(),
            i <= n,
            rows_view(items@) == base + entity_rows(sub_id@, entities.take(i as int), bv),
        decreases n - i,
    {
        let name = subsection.entities.key_at(i);
        proof {
            assert(entities.take(i + 1).drop_last() =~= entities.take(i as int));
            assert(entities.take(i + 1).last() == entities[i as int]);
        }
        let id = join_id(sub_id, name);
        let mut text = String::new();
        assert(text@ + "      └─ Entity: "@ =~= "      └─ Entity: "@);
        text.append("      └─ Entity: ");
        text.append(name);
        let item = TreeItem {
            id: id.clone(),
            display_text: text,
            node_type: NodeType::Entity,
            parent_id: sub_id.to_owned(),
            rule: None,
        };
        let ghost before = rows_view(items@);
        items.push(item);
        assert(rows_view(items@) =~= before.push(item@));
        let ghost mid = rows_view(items@);
        let found = match buckets {
            Some(b) => b.entities.get(name),
            None => None,
        };
        match found {
            Some(bucket) => {
                push_rule_rows(items, id.as_str(), "         ", &bucket.directives);
            },
            None => {
                assert(rule_rows(id@, "         "@, Seq::<RuleView>::empty())
                    =~= Seq::<TreeItemView>::empty());
                assert(mid + Seq::<TreeItemView>::empty() =~= mid);
            },
        }
        proof {
            let rules = rule_rows(id@, "         "@, bv.entity(name@).directives);
            assert(rows_view(items@) == mid + rules);
            let prev = entity_rows(sub_id@, entities.take(i as int), bv);
            assert((base + prev).push(item@) + rules =~= base + (prev.push(item@) + rules));
        }
        i = i + 1;
    }
    assert(entities.take(n as int) =~= entities);
}

/// Appends the rows of the subsections of a plugin group.
fn push_subsection_rows(items: &mut Vec<TreeItem>, plugin_id: &str, plugin: &Plugin, buckets: Option<&PluginDirectives>, expanded: &Vec<String>)
    requires
        plugin.wf(),
        buckets is Some ==> buckets.unwrap().wf(),
    ensures
        rows_view(final(items)@) == rows_view(old(items)@) + subsection_rows(
            plugin_id@,
            plugin@.subsections,
            match buckets {
                Some(b) => b@,
                None => PluginDirectivesView::empty(),
            },
            views_of(expanded@),
        ),
{
    let ghost base = rows_view(items@);
    let ghost subs = plugin@.subsections;
    let ghost ex = views_of(expanded@);
    let ghost bv = match buckets {
        Some(b) => b@,
        None => PluginDirectivesView::empty(),
    };
    let n = plugin.subsections.len();
    let mut i: usize = 0;
    assert(subs.take(0) =~= Seq::<(Seq<char>, SubsectionView)>::empty());
    assert(base + Seq::<TreeItemView>::empty() =~= base);
    while i < n
        invariant
            plugin.wf(),
            buckets is Some ==> buckets.unwrap().wf(),
            subs == plugin@.subsections,
            ex == views_of(expanded@),
            bv == match buckets {
                Some(b) => b@,
                None => PluginDirectivesView::empty(),
            },
            n == subs.len(),
            i <= n,
            rows_view(items@) == base + subsection_rows(plugin_id@, subs.take(i as int), bv, ex),
        decreases n - i,
    {
        let name = plugin.subsections.key_at(i);
        let subsection = plugin.subsections.value_at(i);
        proof {
            assert(subs.take(i + 1).drop_last() =~= subs.take(i as int));
            assert(subs.take(i + 1).last() == subs[i as int]);
            assert(subsection.wf());
        }
        let id = join_id(plugin_id, name);
        let open = holds_text(expanded, id.as_str());
        let mut text = String::new();
        assert(text@ + "   "@ =~= "   "@);
        text.append("   ");
        text.append(marker_text(open));
        text.append(" Subsection: ");
        text.append(name);
        let item = TreeItem {
            id: id.clone(),
            display_text: text,
            node_type: NodeType::Subsection,
            parent_id: plugin_id.to_owned(),
            rule: None,
        };
        let ghost before = rows_view(items@);
        items.push(item);
        assert(rows_view(items@) =~= before.push(item@));
        let ghost mid = rows_view(items@);
        let found = match buckets {
            Some(b) => {
                proof {
                    b.subsections.lemma_view();
                }
                b.subsections.get(name)
            },
            None => None,
        };
        match found {
            Some(bucket) => {
                push_rule_rows(items, id.as_str(), "      ", &bucket.directives);
            },
            None => {
                assert(rule_rows(id@, "      "@, Seq::<RuleView>::empty())
                    =~= Seq::<TreeItemView>::empty());
                assert(mid + Seq::<TreeItemView>::empty() =~= mid);
            },
        }
        let ghost rules = rule_rows(id@, "      "@, bv.subsection(name@).directives);
        assert(rows_view(items@) == mid + rules);
        let ghost mid2 = rows_view(items@);
        if open {
            push_entity_rows(items, id.as_str(), subsection, found);
        } else {
            assert(mid2 + Seq::<TreeItemView>::empty() =~= mid2);
        }
        proof {
            let below = if open {
                entity_rows(id@, subs[i as int].1.entities, bv.subsection(name@))
            } else {
                Seq::<TreeItemView>::empty()
            };
            assert(rows_view(items@) == mid2 + below);
            let prev = subsection_rows(plugin_id@, subs.take(i as int), bv, ex);
            assert((base + prev).push(item@) + rules + below =~= base + (prev.push(item@) + rules
                + below));
        }
        i = i + 1;
    }
    assert(subs.take(n as int) =~= subs);
}

/// Appends the rows of the directive outline to `items`: the plugin groups
/// of the topology in their order, each with the rules of its bucket and,
/// while its identifier is among `expanded`, with its subsections, which
/// show their entities in the same way.
pub fn build_tree_items(items: &mut Vec<TreeItem>, config: &Config, directives: &DirectiveConfig, expanded: &Vec<String>)
    requires
        config.wf(),
        directives.wf(),
    ensures
        rows_view(final(items)@) == rows_view(old(items)@) + plugin_rows(
            config@.plugins,
            directives@,
            views_of(expanded@),
        ),
{
    let ghost base = rows_view(items@);
    let ghost plugins = config@.plugins;
    let ghost ex = views_of(expanded@);
    let n = config.plugins.len();
    let mut i: usize = 0;
    assert(plugins.take(0) =~= Seq::<(Seq<char>, PluginView)>::empty());
    assert(base + Seq::<TreeItemView>::empty() =~= base);
    while i < n
        invariant
            config.wf(),
            directives.wf(),
            plugins == config@.plugins,
            ex == views_of(expanded@),
            n == plugins.len(),
            i <= n,
            rows_view(items@) == base + plugin_rows(plugins.take(i as int), directives@, ex),
        decreases n - i,
    {
        let name = config.plugins.key_at(i);
        let plugin = config.plugins.value_at(i);
        proof {
            assert(plugins.take(i + 1).drop_last() =~= plugins.take(i as int));
            assert(plugins.take(i + 1).last() == plugins[i as int]);
            assert(plugin.wf());
            directives.plugins.lemma_view();
        }
        let open = holds_text(expanded, name);
        let mut text = String::new();
        assert(text@ + marker(open) =~= marker(open));
        text.append(marker_text(open));
        text.append(" Plugin: ");
        text.append(name);
        let item = TreeItem {
            id: name.to_owned(),
            display_text: text,
            node_type: NodeType::Plugin,
            parent_id: String::new(),
            rule: None,
        };
        let ghost before = rows_view(items@);
        items.push(item);
        assert(rows_view(items@) =~= before.push(item@));
        let ghost mid = rows_view(items@);
        let found = directives.plugins.get(name);
        match found {
            Some(bucket) => {
                push_rule_rows(items, name, "   ", &bucket.directives);
            },
            None => {
                assert(rule_rows(name@, "   "@, Seq::<RuleView>::empty())
                    =~= Seq::<TreeItemView>::empty());
                assert(mid + Seq::<TreeItemView>::empty() =~= mid);
            },
        }
        let ghost rules = rule_rows(name@, "   "@, directives@.plugin(name@).directives);
        assert(rows_view(items@) == mid + rules);
        let ghost mid2 = rows_view(items@);
        if open {
            push_subsection_rows(items, name, plugin, found, expanded);
        } else {
            assert(mid2 + Seq::<TreeItemView>::empty() =~= mid2);
        }
        proof {
            let below = if open {
                subsection_rows(name@, plugins[i as int].1.subsections, directives@.plugin(name@), ex)
            } else {
                Seq::<TreeItemView>::empty()
            };
            assert(rows_view(items@) == mid2 + below);
            let prev = plugin_rows(plugins.take(i as int), directives@, ex);
            assert((base + prev).push(item@) + rules + below =~= base + (prev.push(item@) + rules
                + below));
        }
        i = i + 1;
    }
    assert(plugins.take(n as int) =~= plugins);
}

/// The rows of the entities of subsection `sub_id` in the topology outline.
pub open spec fn config_entity_rows(sub_id: Seq<char>, entities: Seq<(Seq<char>, EntityView)>) -> Seq<ConfigTreeItemView> {
    entities.map_values(
        |e: (Seq<char>, EntityView)|
            ConfigTreeItemView {
                id: child_id(sub_id, e.0),
                display_text: entity_text(e.0),
                is_expandable: false,
            },
    )
}

/// The rows of the subsections of plugin group `p` in the topology outline:
/// each subsection and, while it is expanded, its entities.
pub open spec fn config_subsection_rows(p: Seq<char>, subsections: Seq<(Seq<char>, SubsectionView)>, expanded: Seq<Seq<char>>) -> Seq<ConfigTreeItemView>
    decreases subsections.len(),
{
    if subsections.len() == 0 {
        Seq::empty()
    } else {
        let s = subsections.last().0;
        let id = child_id(p, s);
        let open = expanded.contains(id);
        config_subsection_rows(p, subsections.drop_last(), expanded).push(
            ConfigTreeItemView {
                id,
                display_text: subsection_text(s, open),
                is_expandable: true,
            },
        ) + if open {
            config_entity_rows(id, subsections.last().1.entities)
        } else {
            Seq::empty()
        }
    }
}

/// The rows of the topology outline: each plugin group and, while it is
/// expanded, its subsections.
pub open spec fn config_rows(plugins: Seq<(Seq<char>, PluginView)>, expanded: Seq<Seq<char>>) -> Seq<ConfigTreeItemView>
    decreases plugins.len(),
{
    if plugins.len() == 0 {
        Seq::empty()
    } else {
        let p = plugins.last().0;
        let open = expanded.contains(p);
        config_rows(plugins.drop_last(), expanded).push(
            ConfigTreeItemView { id: p, display_text: plugin_text(p, open), is_expandable: true },
        ) + if open {
            config_subsection_rows(p, plugins.last().1.subsections, expanded)
        } else {
            Seq::empty()
        }
    }
}

/// Appends the rows of the entities of a subsection to the topology
/// outline.
fn push_config_entity_rows(items: &mut Vec<ConfigTreeItem>, sub_id: &str, subsection: &Subsection)
    requires
        subsection.wf(),
    ensures
        config_rows_view(final(items)@) == config_rows_view(old(items)@) + config_entity_rows(
            sub_id@,
            subsection@.entities,
        ),
{
    let ghost base = config_rows_view(items@);
    let ghost all = config_entity_rows(sub_id@, subsection@.entities);
    let n = subsection.entities.len();
    let mut i: usize = 0;
    assert(base + all.take(0) =~= base);
    while i < n
        invariant
            subsection.wf(),
            all == config_entity_rows(sub_id@, subsection@.entities),
            n == subsection@.entities.len(),
            i <= n,
            config_rows_view(items@) == base + all.take(i as int),
        decreases n - i,
    {
        let name = subsection.entities.key_at(i);
        let mut text = String::new();
        assert(text@ + "      └─ Entity: "@ =~= "      └─ Entity: "@);
        text.append("      └─ Entity: ");
        text.append(name);
        let item = ConfigTreeItem {
            id: join_id(sub_id, name),
            display_text: text,
            is_expandable: false,
        };
        let ghost before = config_rows_view(items@);
        items.push(item);
        proof {
            assert(config_rows_view(items@) =~= before.push(item@));
            assert(all[i as int] == item@);
            assert(base + all.take(i + 1) =~= (base + all.take(i as int)).push(all[i as int]));
        }
        i = i + 1;
    }
    assert(all.take(n as int) =~= all);
}

/// Appends the rows of the subsections of a plugin group to the topology
/// outline.
fn push_config_subsection_rows(items: &mut Vec<ConfigTreeItem>, plugin_id: &str, plugin: &Plugin, expanded: &Vec<String>)
    requires
        plugin.wf(),
    ensures
        config_rows_view(final(items)@) == config_rows_view(old(items)@) + config_subsection_rows(
            plugin_id@,
            plugin@.subsections,
            views_of(expanded@),
        ),
{
    let ghost base = config_rows_view(items@);
    let ghost subs = plugin@.subsections;
    let ghost ex = views_of(expanded@);
    let n = plugin.subsections.len();
    let mut i: usize = 0;
    assert(subs.take(0) =~= Seq::<(Seq<char>, SubsectionView)>::empty());
    assert(base + Seq::<ConfigTreeItemView>::empty() =~= base);
    while i < n
        invariant
            plugin.wf(),
            subs == plugin@.subsections,
            ex == views_of(expanded@),
            n == subs.len(),
            i <= n,
            config_rows_view(items@) == base + config_subsection_rows(
                plugin_id@,
                subs.take(i as int),
                ex,
            ),
        decreases n - i,
    {
        let name = plugin.subsections.key_at(i);
        let subsection = plugin.subsections.value_at(i);
        proof {
            assert(subs.take(i + 1).drop_last() =~= subs.take(i as int));
            assert(subs.take(i + 1).last() == subs[i as int]);
            assert(subsection.wf());
        }
        let id = join_id(plugin_id, name);
        let open = holds_text(expanded, id.as_str());
        let mut text = String::new();
        assert(text@ + "   "@ =~= "   "@);
        text.append("   ");
        text.append(marker_text(open));
        text.append(" Subsection: ");
        text.append(name);
        let item = ConfigTreeItem { id: id.clone(), display_text: text, is_expandable: true };
        let ghost before = config_rows_view(items@);
        items.push(item);
        assert(config_rows_view(items@) =~= before.push(item@));
        let ghost mid = config_rows_view(items@);
        if open {
            push_config_entity_rows(items, id.as_str(), subsection);
        } else {
            assert(mid + Seq::<ConfigTreeItemView>::empty() =~= mid);
        }
        proof {
            let below = if open {
                config_entity_rows(id@, subs[i as int].1.entities)
            } else {
                Seq::<ConfigTreeItemView>::empty()
            };
            assert(config_rows_view(items@) == mid + below);
            let prev = config_subsection_rows(plugin_id@, subs.take(i as int), ex);
            assert((base + prev).push(item@) + below =~= base + (prev.push(item@) + below));
        }
        i = i + 1;
    }
    assert(subs.take(n as int) =~= subs);
}

/// Appends the rows of the topology outline to `items`: the plugin groups
/// in their order, each with its subsections while its identifier is among
/// `expanded`, and each of those with its entities in the same way.
pub fn build_config_tree_items(items: &mut Vec<ConfigTreeItem>, config: &Config, expanded: &Vec<String>)
    requires
        config.wf(),
    ensures
        config_rows_view(final(items)@) == config_rows_view(old(items)@) + config_rows(
            config@.plugins,
            views_of(expanded@),
        ),
{
    let ghost base = config_rows_view(items@);
    let ghost plugins = config@.plugins;
    let ghost ex = views_of(expanded@);
    let n = config.plugins.len();
    let mut i: usize = 0;
    assert(plugins.take(0) =~= Seq::<(Seq<char>, PluginView)>::empty());
    assert(base + Seq::<ConfigTreeItemView>::empty() =~= base);
    while i < n
        invariant
            config.wf(),
            plugins == config@.plugins,
            ex == views_of(expanded@),
            n == plugins.len(),
            i <= n,
            config_rows_view(items@) == base + config_rows(plugins.take(i as int), ex),
        decreases n - i,
    {
        let name = config.plugins.key_at(i);
        let plugin = config.plugins.value_at(i);
        proof {
            assert(plugins.take(i + 1).drop_last() =~= plugins.take(i as int));
            assert(plugins.take(i + 1).last() == plugins[i as int]);
            assert(plugin.wf());
        }
        let open = holds_text(expanded, name);
        let mut text = String::new();
        assert(text@ + marker(open) =~= marker(open));
        text.append(marker_text(open));
        text.append(" Plugin: ");
        text.append(name);
        let item = ConfigTreeItem { id: name.to_owned(), display_text: text, is_expandable: true };
        let ghost before = config_rows_view(items@);
        items.push(item);
        assert(config_rows_view(items@) =~= before.push(item@));
        let ghost mid = config_rows_view(items@);
        if open {
            push_config_subsection_rows(items, name, plugin, expanded);
        } else {
            assert(mid + Seq::<ConfigTreeItemView>::empty() =~= mid);
        }
        proof {
            let below = if open {
                config_subsection_rows(name@, plugins[i as int].1.subsections, ex)
            } else {
                Seq::<ConfigTreeItemView>::empty()
            };
            assert(config_rows_view(items@) == mid + below);
            let prev = config_rows(plugins.take(i as int), ex);
            assert((base + prev).push(item@) + below =~= base + (prev.push(item@) + below));
        }
        i = i + 1;
    }
    assert(plugins.take(n as int) =~= plugins);
}

} // verus!
