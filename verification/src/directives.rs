//! Directive rules and the tree of buckets that holds them. A bucket hangs at
//! a plugin group, at a subsection or at an entity, and keeps its rules in the
//! order in which they were added. The tree does not follow the topology: a
//! bucket may exist for an identifier that no topology node has.

use vstd::prelude::*;
use crate::keyed::{KeyedTable, lookup, with_entry, distinct_keys, has_key};

verus! {

/// One "if this status, then that command" rule.
#[derive(Debug)]
pub struct Rule {
    pub if_status_is: String,
    pub then_command_target: String,
    pub then_command_json: String,
}

/// A rule as plain text values.
pub struct RuleView {
    pub if_status_is: Seq<char>,
    pub then_command_target: Seq<char>,
    pub then_command_json: Seq<char>,
}

impl View for Rule {
    type V = RuleView;

    open spec fn view(&self) -> RuleView {
        RuleView {
            if_status_is: self.if_status_is@,
            then_command_target: self.then_command_target@,
            then_command_json: self.then_command_json@,
        }
    }
}

impl Clone for Rule {
    fn clone(&self) -> (r: Self)
        ensures
            r@ == self@,
    {
        Rule {
            if_status_is: self.if_status_is.clone(),
            then_command_target: self.then_command_target.clone(),
            then_command_json: self.then_command_json.clone(),
        }
    }
}

impl PartialEq for Rule {
    fn eq(&self, other: &Rule) -> (same: bool) {
        self.if_status_is == other.if_status_is && self.then_command_target
            == other.then_command_target && self.then_command_json == other.then_command_json
    }
}

impl vstd::std_specs::cmp::PartialEqSpecImpl for Rule {
    open spec fn obeys_eq_spec() -> bool {
        true
    }

    open spec fn eq_spec(&self, other: &Rule) -> bool {
        self.if_status_is@ == other.if_status_is@ && self.then_command_target@
            == other.then_command_target@ && self.then_command_json@ == other.then_command_json@
    }
}

impl Rule {
    /// Whether the two rules agree in all three fields.
    pub fn same_as(&self, other: &Rule) -> (b: bool)
        ensures
            b == (self@ == other@),
    {
        self.if_status_is == other.if_status_is && self.then_command_target
            == other.then_command_target && self.then_command_json == other.then_command_json
    }
}

/// The views of a list of rules, in the same order.
pub open spec fn rules_view(s: Seq<Rule>) -> Seq<RuleView> {
    s.map_values(|r: Rule| r@)
}

/// Whether some rule of the list fires on `status`.
pub open spec fn has_match(rules: Seq<RuleView>, status: Seq<char>) -> bool {
    exists|i: int| 0 <= i < rules.len() && (#[trigger] rules[i]).if_status_is == status
}

/// Whether position `i` holds the first rule that fires on `status`.
pub open spec fn is_first_match(rules: Seq<RuleView>, status: Seq<char>, i: int) -> bool {
    &&& 0 <= i < rules.len()
    &&& rules[i].if_status_is == status
    &&& forall|j: int| 0 <= j < i ==> (#[trigger] rules[j]).if_status_is != status
}

/// The first rule of the list, in insertion order, that fires on `status`.
pub open spec fn first_match(rules: Seq<RuleView>, status: Seq<char>) -> Option<RuleView> {
    if has_match(rules, status) {
        Some(rules[choose|i: int| is_first_match(rules, status, i)])
    } else {
        None
    }
}

/// A first match is the only one: `first_match` names the rule at that place.
pub proof fn lemma_first_match(rules: Seq<RuleView>, status: Seq<char>, i: int)
    requires
        is_first_match(rules, status, i),
    ensures
        has_match(rules, status),
        first_match(rules, status) == Some(rules[i]),
{
    let k = choose|k: int| is_first_match(rules, status, k);
    assert(is_first_match(rules, status, k));
    if k < i {
        assert(rules[k].if_status_is != status);
    } else if i < k {
        assert(rules[i].if_status_is != status);
    }
}

/// The test that a rule passes unless it equals `gone`.
pub open spec fn differs_from(gone: RuleView) -> spec_fn(RuleView) -> bool {
    |r: RuleView| r != gone
}

/// The list without the rules equal to `gone`.
pub open spec fn without_rule(rules: Seq<RuleView>, gone: RuleView) -> Seq<RuleView> {
    rules.filter(differs_from(gone))
}

/// The first rule of `rules` whose `if_status_is` equals `status`.
pub fn find_rule_in_vec<'a>(rules: &'a [Rule], status: &str) -> (found: Option<&'a Rule>)
    ensures
        match found {
            Some(r) => first_match(rules_view(rules@), status@) == Some(r@) && exists|i: int|
                is_first_match(rules_view(rules@), status@, i) && *r == rules@[i],
            None => first_match(rules_view(rules@), status@) is None,
        },
{
    let n = rules.len();
    let mut i: usize = 0;
    while i < n
        invariant
            n == rules@.len(),
            i <= n,
            forall|j: int| 0 <= j < i ==> (#[trigger] rules_view(rules@)[j]).if_status_is != status@,
        decreases n - i,
    {
        if crate::text::same_text(rules[i].if_status_is.as_str(), status) {
            proof {
                assert(rules_view(rules@)[i as int] == rules@[i as int]@);
                assert(is_first_match(rules_view(rules@), status@, i as int));
                lemma_first_match(rules_view(rules@), status@, i as int);
            }
            return Some(&rules[i]);
        }
        i = i + 1;
    }
    None
}

/// Whether the list holds a rule equal to `wanted`.
pub fn holds_rule(rules: &Vec<Rule>, wanted: &Rule) -> (b: bool)
    ensures
        b == rules_view(rules@).contains(wanted@),
{
    let n = rules.len();
    let mut i: usize = 0;
    while i < n
        invariant
            n == rules@.len(),
            i <= n,
            forall|j: int| 0 <= j < i ==> (#[trigger] rules_view(rules@)[j]) != wanted@,
        decreases n - i,
    {
        if rules[i].same_as(wanted) {
            assert(rules_view(rules@)[i as int] == wanted@);
            return true;
        }
        i = i + 1;
    }
    false
}

/// Drops every rule equal to `gone` and keeps the others in their order.
/// Says whether any rule was dropped.
pub fn drop_rule(rules: &mut Vec<Rule>, gone: &Rule) -> (dropped: bool)
    ensures
        dropped == rules_view(old(rules)@).contains(gone@),
        rules_view(final(rules)@) == without_rule(rules_view(old(rules)@), gone@),
        !dropped ==> final(rules)@ == old(rules)@,
{
    if !holds_rule(rules, gone) {
        proof {
            lemma_without_absent(rules_view(rules@), gone@);
        }
        return false;
    }
    let n = rules.len();
    let mut kept: Vec<Rule> = Vec::new();
    let mut i: usize = 0;
    proof {
        reveal(Seq::filter);
        assert(rules_view(rules@).take(0) =~= Seq::<RuleView>::empty());
        assert(rules_view(kept@) =~= Seq::<RuleView>::empty());
    }
    while i < n
        invariant
            n == rules@.len(),
            i <= n,
            rules_view(kept@) == without_rule(rules_view(rules@).take(i as int), gone@),
        decreases n - i,
    {
        let ghost all = rules_view(rules@);
        let ghost before = rules_view(kept@);
        proof {
            reveal(Seq::filter);
            assert(all.take(i + 1).drop_last() =~= all.take(i as int));
            assert(all.take(i + 1).last() == rules@[i as int]@);
        }
        if !rules[i].same_as(gone) {
            let copy = rules[i].clone();
            kept.push(copy);
            assert(rules_view(kept@) =~= before.push(copy@));
        }
        i = i + 1;
    }
    assert(rules_view(rules@).take(n as int) =~= rules_view(rules@));
    *rules = kept;
    true
}

/// Dropping a rule that the list does not hold leaves the list as it is.
pub proof fn lemma_without_absent(rules: Seq<RuleView>, gone: RuleView)
    requires
        !rules.contains(gone),
    ensures
        without_rule(rules, gone) == rules,
    decreases rules.len(),
{
    reveal(Seq::filter);
    if rules.len() > 0 {
        let head = rules.drop_last();
        assert forall|r: RuleView| head.contains(r) implies rules.contains(r) by {
            let i = choose|i: int| 0 <= i < head.len() && head[i] == r;
            assert(rules[i] == r);
        }
        lemma_without_absent(head, gone);
        assert(rules.last() != gone) by {
            assert(rules[rules.len() - 1] == rules.last());
        }
        assert(head.push(rules.last()) =~= rules);
    } else {
        assert(without_rule(rules, gone) =~= rules);
    }
}

/// After dropping a rule, the list holds no rule equal to it, and every rule
/// it holds was there before.
pub proof fn lemma_without_rule(rules: Seq<RuleView>, gone: RuleView)
    ensures
        !without_rule(rules, gone).contains(gone),
        forall|r: RuleView| r != gone ==> without_rule(rules, gone).contains(r) == rules.contains(r),
        without_rule(rules, gone).len() <= rules.len(),
{
    let pred = differs_from(gone);
    rules.lemma_filter_len(pred);
    let out = without_rule(rules, gone);
    assert forall|r: RuleView| out.contains(r) implies r != gone && rules.contains(r) by {
        rules.lemma_filter_contains_rev(pred, r);
        let i = choose|i: int| 0 <= i < out.len() && out[i] == r;
        rules.lemma_filter_pred(pred, i);
    }
    assert forall|r: RuleView| r != gone && rules.contains(r) implies out.contains(r) by {
        let i = choose|i: int| 0 <= i < rules.len() && rules[i] == r;
        rules.lemma_filter_contains(pred, i);
    }
}

/// The bucket of one entity.
#[derive(Debug, Clone)]
pub struct EntityDirectives {
    pub directives: Vec<Rule>,
}

/// The bucket of one subsection, and the buckets of the entities below it.
#[derive(Debug, Clone)]
pub struct SubsectionDirectives {
    pub directives: Vec<Rule>,
    pub entities: KeyedTable<EntityDirectives>,
}

/// The bucket of one plugin group, and the buckets of the subsections below
/// it.
#[derive(Debug, Clone)]
pub struct PluginDirectives {
    pub directives: Vec<Rule>,
    pub subsections: KeyedTable<SubsectionDirectives>,
}

/// The whole directive tree, by plugin group.
#[derive(Debug, Clone)]
pub struct DirectiveConfig {
    pub plugins: KeyedTable<PluginDirectives>,
}

/// An entity's bucket as plain values.
pub struct EntityDirectivesView {
    pub directives: Seq<RuleView>,
}

/// A subsection's buckets as plain values.
pub struct SubsectionDirectivesView {
    pub directives: Seq<RuleView>,
    pub entities: Seq<(Seq<char>, EntityDirectivesView)>,
}

/// A plugin group's buckets as plain values.
pub struct PluginDirectivesView {
    pub directives: Seq<RuleView>,
    pub subsections: Seq<(Seq<char>, SubsectionDirectivesView)>,
}

/// The directive tree as plain values.
pub struct DirectiveConfigView {
    pub plugins: Seq<(Seq<char>, PluginDirectivesView)>,
}

impl View for EntityDirectives {
    type V = EntityDirectivesView;

    open spec fn view(&self) -> EntityDirectivesView {
        EntityDirectivesView { directives: rules_view(self.directives@) }
    }
}

impl View for SubsectionDirectives {
    type V = SubsectionDirectivesView;

    open spec fn view(&self) -> SubsectionDirectivesView {
        SubsectionDirectivesView {
            directives: rules_view(self.directives@),
            entities: self.entities@,
        }
    }
}

impl View for PluginDirectives {
    type V = PluginDirectivesView;

    open spec fn view(&self) -> PluginDirectivesView {
        PluginDirectivesView {
            directives: rules_view(self.directives@),
            subsections: self.subsections@,
        }
    }
}

impl View for DirectiveConfig {
    type V = DirectiveConfigView;

    open spec fn view(&self) -> DirectiveConfigView {
        DirectiveConfigView { plugins: self.plugins@ }
    }
}

impl EntityDirectivesView {
    /// A bucket without rules.
    pub open spec fn empty() -> Self {
        EntityDirectivesView { directives: Seq::empty() }
    }

    /// The bucket with `rule` added at its end.
    pub open spec fn with_rule(self, rule: RuleView) -> Self {
        EntityDirectivesView { directives: self.directives.push(rule) }
    }

    /// The bucket without the rules equal to `rule`.
    pub open spec fn without_rule(self, rule: RuleView) -> Self {
        EntityDirectivesView { directives: without_rule(self.directives, rule) }
    }
}

impl SubsectionDirectivesView {
    /// A subsection without rules and without entity buckets.
    pub open spec fn empty() -> Self {
        SubsectionDirectivesView { directives: Seq::empty(), entities: Seq::empty() }
    }

    /// The bucket of entity `e`; an empty one if there is none yet.
    pub open spec fn entity(self, e: Seq<char>) -> EntityDirectivesView {
        match lookup(self.entities, e) {
            Some(b) => b,
            None => EntityDirectivesView::empty(),
        }
    }

    /// `rule` added to the subsection's own bucket.
    pub open spec fn with_rule(self, rule: RuleView) -> Self {
        SubsectionDirectivesView { directives: self.directives.push(rule), ..self }
    }

    /// `rule` added to the bucket of entity `e`, which is created if missing.
    pub open spec fn with_entity_rule(self, e: Seq<char>, rule: RuleView) -> Self {
        SubsectionDirectivesView {
            entities: with_entry(self.entities, e, self.entity(e).with_rule(rule)),
            ..self
        }
    }

    /// The subsection's own bucket without the rules equal to `rule`.
    pub open spec fn without_rule(self, rule: RuleView) -> Self {
        SubsectionDirectivesView { directives: without_rule(self.directives, rule), ..self }
    }

    /// The bucket of entity `e` without the rules equal to `rule`. Nothing
    /// changes if `e` has no bucket.
    pub open spec fn without_entity_rule(self, e: Seq<char>, rule: RuleView) -> Self {
        match lookup(self.entities, e) {
            Some(b) => SubsectionDirectivesView {
                entities: with_entry(self.entities, e, b.without_rule(rule)),
                ..self
            },
            None => self,
        }
    }

    /// Keys are distinct among the entity buckets.
    pub open spec fn wf(self) -> bool {
        distinct_keys(self.entities)
    }
}

impl PluginDirectivesView {
    /// A plugin group without rules and without subsection buckets.
    pub open spec fn empty() -> Self {
        PluginDirectivesView { directives: Seq::empty(), subsections: Seq::empty() }
    }

    /// The buckets of subsection `s`; empty ones if there are none yet.
    pub open spec fn subsection(self, s: Seq<char>) -> SubsectionDirectivesView {
        match lookup(self.subsections, s) {
            Some(b) => b,
            None => SubsectionDirectivesView::empty(),
        }
    }

    /// `rule` added to the plugin group's own bucket.
    pub open spec fn with_rule(self, rule: RuleView) -> Self {
        PluginDirectivesView { directives: self.directives.push(rule), ..self }
    }

    /// `rule` added to the bucket of subsection `s`, which is created if
    /// missing.
    pub open spec fn with_subsection_rule(self, s: Seq<char>, rule: RuleView) -> Self {
        PluginDirectivesView {
            subsections: with_entry(self.subsections, s, self.subsection(s).with_rule(rule)),
            ..self
        }
    }

    /// `rule` added to the bucket of entity `e` below subsection `s`; both
    /// are created if missing.
    pub open spec fn with_entity_rule(self, s: Seq<char>, e: Seq<char>, rule: RuleView) -> Self {
        PluginDirectivesView {
            subsections: with_entry(
                self.subsections,
                s,
                self.subsection(s).with_entity_rule(e, rule),
            ),
            ..self
        }
    }

    /// The plugin group's own bucket without the rules equal to `rule`.
    pub open spec fn without_rule(self, rule: RuleView) -> Self {
        PluginDirectivesView { directives: without_rule(self.directives, rule), ..self }
    }

    /// The bucket of subsection `s` without the rules equal to `rule`.
    /// Nothing changes if `s` has no bucket.
    pub open spec fn without_subsection_rule(self, s: Seq<char>, rule: RuleView) -> Self {
        match lookup(self.subsections, s) {
            Some(b) => PluginDirectivesView {
                subsections: with_entry(self.subsections, s, b.without_rule(rule)),
                ..self
            },
            None => self,
        }
    }

    /// The bucket of entity `e` below subsection `s` without the rules equal
    /// to `rule`. Nothing changes if either has no bucket.
    pub open spec fn without_entity_rule(self, s: Seq<char>, e: Seq<char>, rule: RuleView) -> Self {
        match lookup(self.subsections, s) {
            Some(b) => PluginDirectivesView {
                subsections: with_entry(self.subsections, s, b.without_entity_rule(e, rule)),
                ..self
            },
            None => self,
        }
    }

    /// Keys are distinct among the subsection buckets and below each.
    pub open spec fn wf(self) -> bool {
        &&& distinct_keys(self.subsections)
        &&& forall|i: int| 0 <= i < self.subsections.len() ==> (#[trigger] self.subsections[i]).1.wf()
    }
}

impl DirectiveConfigView {
    /// A tree without buckets.
    pub open spec fn empty() -> Self {
        DirectiveConfigView { plugins: Seq::empty() }
    }

    /// The buckets of plugin group `p`; empty ones if there are none yet.
    pub open spec fn plugin(self, p: Seq<char>) -> PluginDirectivesView {
        match lookup(self.plugins, p) {
            Some(b) => b,
            None => PluginDirectivesView::empty(),
        }
    }

    /// Keys are distinct at every level of the tree.
    pub open spec fn wf(self) -> bool {
        &&& distinct_keys(self.plugins)
        &&& forall|i: int| 0 <= i < self.plugins.len() ==> (#[trigger] self.plugins[i]).1.wf()
    }
}

impl EntityDirectives {
    /// A bucket without rules.
    pub fn new() -> (b: Self)
        ensures
            b@ == EntityDirectivesView::empty(),
    {
        let b = EntityDirectives { directives: Vec::new() };
        assert(b@.directives =~= Seq::<RuleView>::empty());
        b
    }

    /// Adds `rule` at the end of the bucket.
    pub fn add_rule(&mut self, rule: Rule)
        ensures
            final(self)@ == old(self)@.with_rule(rule@),
            final(self)@ != old(self)@,
    {
        let ghost before = rules_view(self.directives@);
        self.directives.push(rule);
        assert(rules_view(self.directives@) =~= before.push(rule@));
    }

    /// Drops every rule equal to `rule`; says whether there was one.
    pub fn remove_rule(&mut self, rule: &Rule) -> (dropped: bool)
        ensures
            dropped == old(self)@.directives.contains(rule@),
            final(self)@ == old(self)@.without_rule(rule@),
            !dropped ==> final(self)@ == old(self)@,
    {
        drop_rule(&mut self.directives, rule)
    }
}

impl Default for EntityDirectives {
    fn default() -> (b: Self)
        ensures
            b@ == EntityDirectivesView::empty(),
    {
        EntityDirectives::new()
    }
}

impl SubsectionDirectives {
    /// No entity key occurs twice.
    pub open spec fn wf(&self) -> bool {
        self.entities.wf()
    }

    /// The invariant carries over to the view.
    pub proof fn lemma_wf_view(&self)
        requires
            self.wf(),
        ensures
            self@.wf(),
    {
        self.entities.lemma_view();
    }

    /// A subsection without rules and without entity buckets.
    pub fn new() -> (b: Self)
        ensures
            b.wf(),
            b@ == SubsectionDirectivesView::empty(),
    {
        let b = SubsectionDirectives { directives: Vec::new(), entities: KeyedTable::new() };
        assert(b@.directives =~= Seq::<RuleView>::empty());
        b
    }

    /// Adds `rule` at the end of the subsection's own bucket.
    pub fn add_rule(&mut self, rule: Rule)
        requires
            old(self).wf(),
        ensures
            final(self).wf(),
            final(self)@ == old(self)@.with_rule(rule@),
            final(self)@ != old(self)@,
    {
        let ghost before = rules_view(self.directives@);
        self.directives.push(rule);
        assert(rules_view(self.directives@) =~= before.push(rule@));
    }

    /// Adds `rule` to the bucket of entity `e`, creating the bucket if it is
    /// missing.
    pub fn add_entity_rule(&mut self, e: &str, rule: Rule)
        requires
            old(self).wf(),
        ensures
            final(self).wf(),
            final(self)@ == old(self)@.with_entity_rule(e@, rule@),
            final(self)@ != old(self)@,
    {
        proof {
            self.entities.lemma_view();
        }
        let ghost before = self.entities@;
        let i = self.entities.slot_or_insert(e, EntityDirectives::new());
        let ghost mid = self.entities@;
        let bucket = self.entities.value_at_mut(i);
        bucket.add_rule(rule);
        proof {
            let grown = old(self)@.entity(e@).with_rule(rule@);
            if has_key(before, e@) {
                crate::keyed::lemma_key_index_unique(before, i as int);
            }
            assert(self.entities@ =~= with_entry(before, e@, grown));
        }
    }

    /// Drops every rule equal to `rule` from the subsection's own bucket.
    pub fn remove_rule(&mut self, rule: &Rule) -> (dropped: bool)
        requires
            old(self).wf(),
        ensures
            final(self).wf(),
            dropped == old(self)@.directives.contains(rule@),
            final(self)@ == old(self)@.without_rule(rule@),
            !dropped ==> final(self)@ == old(self)@,
    {
        drop_rule(&mut self.directives, rule)
    }

    /// Drops every rule equal to `rule` from the bucket of entity `e`.
    pub fn remove_entity_rule(&mut self, e: &str, rule: &Rule) -> (dropped: bool)
        requires
            old(self).wf(),
        ensures
            final(self).wf(),
            dropped == (lookup(old(self)@.entities, e@) is Some && old(self)@.entity(
                e@,
            ).directives.contains(rule@)),
            final(self)@ == old(self)@.without_entity_rule(e@, rule@),
            !dropped ==> final(self)@ == old(self)@,
    {
        proof {
            self.entities.lemma_view();
        }
        let ghost before = self.entities@;
        match self.entities.position(e) {
            Some(i) => {
                let bucket = self.entities.value_at_mut(i);
                let dropped = bucket.remove_rule(rule);
                proof {
                    crate::keyed::lemma_key_index_unique(before, i as int);
                    let b = before[i as int].1;
                    assert(self.entities@ =~= with_entry(before, e@, b.without_rule(rule@)));
                    if !dropped {
                        assert(self.entities@ =~= before);
                    }
                }
                dropped
            },
            None => false,
        }
    }
}

impl Default for SubsectionDirectives {
    fn default() -> (b: Self)
        ensures
            b.wf(),
            b@ == SubsectionDirectivesView::empty(),
    {
        SubsectionDirectives::new()
    }
}

impl PluginDirectives {
    /// No subsection key occurs twice, and every subsection is well formed.
    pub open spec fn wf(&self) -> bool {
        &&& self.subsections.wf()
        &&& forall|i: int|
            0 <= i < self.subsections.values().len() ==> (#[trigger] self.subsections.values()[i]).wf()
    }

    /// The invariant carries over to the view.
    pub proof fn lemma_wf_view(&self)
        requires
            self.wf(),
        ensures
            self@.wf(),
    {
        self.subsections.lemma_view();
        assert forall|i: int| 0 <= i < self@.subsections.len() implies (
        #[trigger] self@.subsections[i]).1.wf() by {
            self.subsections.values()[i].lemma_wf_view();
        }
    }

    /// A plugin group without rules and without subsection buckets.
    pub fn new() -> (b: Self)
        ensures
            b.wf(),
            b@ == PluginDirectivesView::empty(),
    {
        let b = PluginDirectives { directives: Vec::new(), subsections: KeyedTable::new() };
        assert(b@.directives =~= Seq::<RuleView>::empty());
        b
    }

    /// Adds `rule` at the end of the plugin group's own bucket.
    pub fn add_rule(&mut self, rule: Rule)
        requires
            old(self).wf(),
        ensures
            final(self).wf(),
            final(self)@ == old(self)@.with_rule(rule@),
            final(self)@ != old(self)@,
    {
        let ghost before = rules_view(self.directives@);
        self.directives.push(rule);
        assert(rules_view(self.directives@) =~= before.push(rule@));
    }

    /// Adds `rule` to the bucket of subsection `s`, creating it if missing.
    pub fn add_subsection_rule(&mut self, s: &str, rule: Rule)
        requires
            old(self).wf(),
        ensures
            final(self).wf(),
            final(self)@ == old(self)@.with_subsection_rule(s@, rule@),
            final(self)@ != old(self)@,
    {
        proof {
            self.subsections.lemma_view();
        }
        let ghost before = self.subsections@;
        let i = self.subsections.slot_or_insert(s, SubsectionDirectives::new());
        let sub = self.subsections.value_at_mut(i);
        sub.add_rule(rule);
        proof {
            let grown = old(self)@.subsection(s@).with_rule(rule@);
            if has_key(before, s@) {
                crate::keyed::lemma_key_index_unique(before, i as int);
            }
            assert(self.subsections@ =~= with_entry(before, s@, grown));
        }
    }

    /// Adds `rule` to the bucket of entity `e` below subsection `s`, creating
    /// what is missing.
    pub fn add_entity_rule(&mut self, s: &str, e: &str, rule: Rule)
        requires
            old(self).wf(),
        ensures
            final(self).wf(),
            final(self)@ == old(self)@.with_entity_rule(s@, e@, rule@),
            final(self)@ != old(self)@,
    {
        proof {
            self.subsections.lemma_view();
        }
        let ghost before = self.subsections@;
        let i = self.subsections.slot_or_insert(s, SubsectionDirectives::new());
        let sub = self.subsections.value_at_mut(i);
        sub.add_entity_rule(e, rule);
        proof {
            let grown = old(self)@.subsection(s@).with_entity_rule(e@, rule@);
            if has_key(before, s@) {
                crate::keyed::lemma_key_index_unique(before, i as int);
            }
            assert(self.subsections@ =~= with_entry(before, s@, grown));
        }
    }

    /// Drops every rule equal to `rule` from the plugin group's own bucket.
    pub fn remove_rule(&mut self, rule: &Rule) -> (dropped: bool)
        requires
            old(self).wf(),
        ensures
            final(self).wf(),
            dropped == old(self)@.directives.contains(rule@),
            final(self)@ == old(self)@.without_rule(rule@),
            !dropped ==> final(self)@ == old(self)@,
    {
        drop_rule(&mut self.directives, rule)
    }

    /// Drops every rule equal to `rule` from the bucket of subsection `s`.
    pub fn remove_subsection_rule(&mut self, s: &str, rule: &Rule) -> (dropped: bool)
        requires
            old(self).wf(),
        ensures
            final(self).wf(),
            dropped == (lookup(old(self)@.subsections, s@) is Some && old(self)@.subsection(
                s@,
            ).directives.contains(rule@)),
            final(self)@ == old(self)@.without_subsection_rule(s@, rule@),
            !dropped ==> final(self)@ == old(self)@,
    {
        proof {
            self.subsections.lemma_view();
        }
        let ghost before = self.subsections@;
        match self.subsections.position(s) {
            Some(i) => {
                let sub = self.subsections.value_at_mut(i);
                let dropped = sub.remove_rule(rule);
                proof {
                    crate::keyed::lemma_key_index_unique(before, i as int);
                    let b = before[i as int].1;
                    assert(self.subsections@ =~= with_entry(before, s@, b.without_rule(rule@)));
                    if !dropped {
                        assert(self.subsections@ =~= before);
                    }
                }
                dropped
            },
            None => false,
        }
    }

    /// Drops every rule equal to `rule` from the bucket of entity `e` below
    /// subsection `s`.
    pub fn remove_entity_rule(&mut self, s: &str, e: &str, rule: &Rule) -> (dropped: bool)
        requires
            old(self).wf(),
        ensures
            final(self).wf(),
            dropped == (lookup(old(self)@.subsections, s@) is Some && lookup(
                old(self)@.subsection(s@).entities,
                e@,
            ) is Some && old(self)@.subsection(s@).entity(e@).directives.contains(rule@)),
            final(self)@ == old(self)@.without_entity_rule(s@, e@, rule@),
            !dropped ==> final(self)@ == old(self)@,
    {
        proof {
            self.subsections.lemma_view();
        }
        let ghost before = self.subsections@;
        match self.subsections.position(s) {
            Some(i) => {
                let sub = self.subsections.value_at_mut(i);
                let dropped = sub.remove_entity_rule(e, rule);
                proof {
                    crate::keyed::lemma_key_index_unique(before, i as int);
                    let b = before[i as int].1;
                    assert(self.subsections@ =~= with_entry(
                        before,
                        s@,
                        b.without_entity_rule(e@, rule@),
                    ));
                    if !dropped {
                        assert(self.subsections@ =~= before);
                    }
                }
                dropped
            },
            None => false,
        }
    }
}

impl Default for PluginDirectives {
    fn default() -> (b: Self)
        ensures
            b.wf(),
            b@ == PluginDirectivesView::empty(),
    {
        PluginDirectives::new()
    }
}

impl DirectiveConfig {
    /// No plugin key occurs twice, and every plugin group is well formed.
    pub open spec fn wf(&self) -> bool {
        &&& self.plugins.wf()
        &&& forall|i: int|
            0 <= i < self.plugins.values().len() ==> (#[trigger] self.plugins.values()[i]).wf()
    }

    /// The invariant carries over to the view.
    pub proof fn lemma_wf_view(&self)
        requires
            self.wf(),
        ensures
            self@.wf(),
    {
        self.plugins.lemma_view();
        assert forall|i: int| 0 <= i < self@.plugins.len() implies (#[trigger] self@.plugins[i]).1.wf() by {
            self.plugins.values()[i].lemma_wf_view();
        }
    }

    /// A tree without buckets.
    pub fn new() -> (c: Self)
        ensures
            c.wf(),
            c@ == DirectiveConfigView::empty(),
    {
        DirectiveConfig { plugins: KeyedTable::new() }
    }
}

impl Default for DirectiveConfig {
    fn default() -> (c: Self)
        ensures
            c.wf(),
            c@ == DirectiveConfigView::empty(),
    {
        DirectiveConfig::new()
    }
}

} // verus!
