use apollo::console::{
    dictionary_key, directive_key, directive_start, first_choice, gate_key, global_key,
    log_view_key, login_key, quits, topology_key, DictionaryCounts, DictionaryEffect,
    DictionaryState, DirectiveEffect, DirectiveState, Filled, GateEffect, GlobalEffect, Key,
    LogViewEffect, LogViewState, LoginEffect, RowInfo, TopologyEffect, TopologyState,
    ACTION_CONFIRMED, ACTION_DENIED,
};
use apollo::state::{
    AuthenticatedMode, CommandFormFocus, DictionaryColumn, DictionaryEditorMode,
    DirectiveFormStep, DirectiveMode, LogViewerMode, LoginFocus, PluginMgmtFormStep,
    PluginMgmtMode,
};
use apollo::tree::NodeType;

const ALL_KEYS: [Key; 16] = [
    Key::Up,
    Key::Down,
    Key::Left,
    Key::Right,
    Key::Tab,
    Key::BackTab,
    Key::Enter,
    Key::Delete,
    Key::Insert,
    Key::End,
    Key::Backspace,
    Key::Esc,
    Key::Char('x'),
    Key::Char(' '),
    Key::Char('1'),
    Key::Other,
];

#[test]
fn gate_needs_enter_and_the_code() {
    assert_eq!(gate_key(Key::Enter, true), GateEffect::Confirmed);
    assert_eq!(gate_key(Key::Enter, false), GateEffect::Denied);
    assert_eq!(gate_key(Key::Esc, true), GateEffect::Cancelled);
    assert_eq!(gate_key(Key::End, false), GateEffect::Cancelled);
    assert_eq!(gate_key(Key::Char('A'), true), GateEffect::Typing);
    assert_eq!(gate_key(Key::Backspace, false), GateEffect::Typing);
    for key in ALL_KEYS {
        assert_eq!(gate_key(key, true) == GateEffect::Confirmed, key == Key::Enter);
        assert_ne!(gate_key(key, false), GateEffect::Confirmed);
    }
    assert_eq!(ACTION_CONFIRMED, "Action confirmed. Operation in progress.");
    assert_eq!(ACTION_DENIED, "Authentication code incorrect. Action cancelled.");
}

#[test]
fn escape_quits_and_letters_act_on_the_whole_console() {
    for key in ALL_KEYS {
        assert_eq!(quits(key), key == Key::Esc);
    }
    assert_eq!(global_key(Key::Char('s')), GlobalEffect::Snapshot);
    assert_eq!(global_key(Key::Char('q')), GlobalEffect::Logout);
    assert_eq!(global_key(Key::Char('1')), GlobalEffect::Show(AuthenticatedMode::PluginView));
    assert_eq!(
        global_key(Key::Char('5')),
        GlobalEffect::Show(AuthenticatedMode::DictionaryEditorView)
    );
    assert_eq!(global_key(Key::Char('6')), GlobalEffect::Nothing);
    assert_eq!(global_key(Key::Enter), GlobalEffect::Nothing);
}

#[test]
fn login_screen() {
    let step = login_key(LoginFocus::Password, Key::Enter);
    assert_eq!(step.effect, LoginEffect::Submit);
    assert_eq!(step.focus, LoginFocus::Username);
    assert!(!step.clears_error);
    let step = login_key(LoginFocus::Username, Key::Tab);
    assert_eq!((step.focus, step.effect), (LoginFocus::Password, LoginEffect::Nothing));
    let step = login_key(LoginFocus::Password, Key::Tab);
    assert_eq!(step.focus, LoginFocus::Username);
    let step = login_key(LoginFocus::Username, Key::Char('a'));
    assert_eq!(step.effect, LoginEffect::EditUsername);
    assert!(step.clears_error);
    let step = login_key(LoginFocus::Password, Key::Backspace);
    assert_eq!(step.effect, LoginEffect::EditPassword);
    let step = login_key(LoginFocus::FieldOne, Key::Char('a'));
    assert_eq!((step.focus, step.effect), (LoginFocus::FieldOne, LoginEffect::Nothing));
}

fn directive(mode: DirectiveMode, step: DirectiveFormStep) -> DirectiveState {
    DirectiveState { mode, step, selected: Some(1), choice: Some(0) }
}

#[test]
fn directive_view_starts_in_view_mode() {
    let start = directive_start();
    assert_eq!(start.mode, DirectiveMode::View);
    assert_eq!(start.step, DirectiveFormStep::SelectTarget);
    assert_eq!((start.selected, start.choice), (None, None));
    assert_eq!(first_choice(0), None);
    assert_eq!(first_choice(3), Some(0));
}

#[test]
fn directive_modes_change_only_before_the_form_is_under_way() {
    let at_start = directive(DirectiveMode::View, DirectiveFormStep::SelectTarget);
    let step = directive_key(at_start, Key::Right, 3, None, 0);
    assert_eq!(step.state.mode, DirectiveMode::Add);
    assert!(step.consumed);
    let step = directive_key(step.state, Key::Right, 3, None, 0);
    assert_eq!(step.state.mode, DirectiveMode::Remove);
    let step = directive_key(step.state, Key::Right, 3, None, 0);
    assert_eq!(step.state.mode, DirectiveMode::View);
    let step = directive_key(at_start, Key::Left, 3, None, 0);
    assert_eq!(step.state.mode, DirectiveMode::Remove);
    let under_way = directive(DirectiveMode::Add, DirectiveFormStep::SelectActionTarget);
    let step = directive_key(under_way, Key::Right, 3, None, 0);
    assert_eq!(step.state, under_way);
    assert!(!step.consumed);
    let choosing = directive(DirectiveMode::Add, DirectiveFormStep::SelectStatus);
    let step = directive_key(choosing, Key::Left, 3, None, 2);
    assert_eq!(step.state, choosing);
    assert!(!step.consumed);
}

#[test]
fn directive_form_walks_through_its_steps() {
    let mut state = directive(DirectiveMode::Add, DirectiveFormStep::SelectTarget);
    let step = directive_key(state, Key::Enter, 3, Some(NodeType::Entity), 0);
    assert_eq!(step.effect, DirectiveEffect::PickTarget);
    assert_eq!(step.state.step, DirectiveFormStep::SelectStatus);
    state = DirectiveState { choice: first_choice(2), ..step.state };
    let step = directive_key(state, Key::Down, 3, None, 2);
    assert_eq!(step.state.choice, Some(1));
    let step = directive_key(step.state, Key::Down, 3, None, 2);
    assert_eq!(step.state.choice, Some(1));
    let step = directive_key(step.state, Key::Enter, 3, None, 2);
    assert_eq!(step.effect, DirectiveEffect::PickStatus(1));
    assert_eq!(step.state.step, DirectiveFormStep::SelectActionTarget);
    let step = directive_key(step.state, Key::Enter, 3, Some(NodeType::Plugin), 2);
    assert_eq!(step.effect, DirectiveEffect::PickActionTarget);
    assert_eq!(step.state.step, DirectiveFormStep::SelectCommand);
    state = DirectiveState { choice: first_choice(1), ..step.state };
    let step = directive_key(state, Key::Enter, 3, None, 1);
    assert_eq!(step.effect, DirectiveEffect::PickCommand(0));
    assert_eq!(step.state.step, DirectiveFormStep::Confirm);
    let step = directive_key(step.state, Key::Enter, 3, None, 1);
    assert_eq!((step.effect, step.consumed), (DirectiveEffect::Nothing, false));
    let step = directive_key(step.state, Key::Insert, 3, None, 1);
    assert_eq!(step.effect, DirectiveEffect::SaveDirective);
    assert_eq!(step.state.mode, DirectiveMode::View);
    assert_eq!(step.state.step, DirectiveFormStep::SelectTarget);
    assert_eq!(step.state.choice, None);
    assert_eq!(step.state.selected, Some(1));
}

#[test]
fn directive_form_goes_back_and_ends() {
    let steps = [
        DirectiveFormStep::SelectTarget,
        DirectiveFormStep::SelectStatus,
        DirectiveFormStep::SelectActionTarget,
        DirectiveFormStep::SelectCommand,
        DirectiveFormStep::Confirm,
    ];
    for i in 1..5 {
        let step = directive_key(directive(DirectiveMode::Add, steps[i]), Key::Backspace, 3, None, 2);
        assert_eq!(step.state.step, steps[i - 1]);
        assert!(step.consumed);
    }
    let first = directive(DirectiveMode::Add, steps[0]);
    let step = directive_key(first, Key::Backspace, 3, None, 2);
    assert_eq!((step.state, step.consumed), (first, false));
    let viewing = directive(DirectiveMode::View, steps[0]);
    let step = directive_key(viewing, Key::Backspace, 3, None, 2);
    assert_eq!((step.state, step.consumed), (viewing, false));
    for mode in [DirectiveMode::View, DirectiveMode::Add, DirectiveMode::Remove] {
        for at in steps {
            let step = directive_key(directive(mode, at), Key::End, 3, None, 2);
            assert_eq!(step.effect, DirectiveEffect::ResetWizard);
            assert_eq!(step.state.mode, DirectiveMode::View);
            assert_eq!(step.state.step, DirectiveFormStep::SelectTarget);
            assert_eq!(step.state.choice, None);
        }
    }
}

#[test]
fn directive_outline_moves_expands_and_stages() {
    let view = DirectiveState { selected: None, ..directive_start() };
    let step = directive_key(view, Key::Down, 3, None, 0);
    assert_eq!(step.state.selected, Some(0));
    let step = directive_key(step.state, Key::Up, 3, None, 0);
    assert_eq!(step.state.selected, Some(0));
    let step = directive_key(view, Key::Up, 0, None, 0);
    assert_eq!(step.state.selected, None);
    let step = directive_key(DirectiveState { selected: Some(2), ..view }, Key::Down, 3, None, 0);
    assert_eq!(step.state.selected, Some(2));
    for (kind, expands) in [
        (NodeType::Plugin, true),
        (NodeType::Subsection, true),
        (NodeType::Entity, false),
        (NodeType::Rule, false),
    ] {
        let step = directive_key(view, Key::Tab, 3, Some(kind), 0);
        assert_eq!(step.effect == DirectiveEffect::Expand, expands);
        let step = directive_key(view, Key::BackTab, 3, Some(kind), 0);
        assert_eq!(step.effect == DirectiveEffect::Collapse, expands);
    }
    let removing = directive(DirectiveMode::Remove, DirectiveFormStep::SelectTarget);
    let step = directive_key(removing, Key::Delete, 3, Some(NodeType::Rule), 0);
    assert_eq!(step.effect, DirectiveEffect::StageDeletion);
    let step = directive_key(removing, Key::Delete, 3, Some(NodeType::Entity), 0);
    assert_eq!(step.effect, DirectiveEffect::Nothing);
    let step = directive_key(removing, Key::Delete, 3, None, 0);
    assert_eq!(step.effect, DirectiveEffect::Nothing);
    let step = directive_key(view, Key::Delete, 3, Some(NodeType::Rule), 0);
    assert_eq!(step.effect, DirectiveEffect::Nothing);
    let step = directive_key(view, Key::Enter, 3, Some(NodeType::Plugin), 0);
    assert_eq!((step.effect, step.consumed), (DirectiveEffect::Nothing, true));
    let step = directive_key(view, Key::Char('3'), 3, None, 0);
    assert!(!step.consumed);
}

#[test]
fn deletion_is_staged_on_one_path_only() {
    let modes = [DirectiveMode::View, DirectiveMode::Add, DirectiveMode::Remove];
    let steps = [
        DirectiveFormStep::SelectTarget,
        DirectiveFormStep::SelectStatus,
        DirectiveFormStep::SelectActionTarget,
        DirectiveFormStep::SelectCommand,
        DirectiveFormStep::Confirm,
    ];
    let rows = [
        None,
        Some(NodeType::Plugin),
        Some(NodeType::Subsection),
        Some(NodeType::Entity),
        Some(NodeType::Rule),
    ];
    for mode in modes {
        for at in steps {
            for row in rows {
                for key in ALL_KEYS {
                    let step = directive_key(directive(mode, at), key, 5, row, 3);
                    if step.effect == DirectiveEffect::StageDeletion {
                        assert_eq!(mode, DirectiveMode::Remove);
                        assert_eq!(row, Some(NodeType::Rule));
                        assert_eq!(key, Key::Delete);
                    }
                    if step.effect == DirectiveEffect::SaveDirective {
                        assert_eq!((mode, at, key), (DirectiveMode::Add, DirectiveFormStep::Confirm, Key::Insert));
                    }
                    if let Some(s) = step.state.selected {
                        assert!(s < 5);
                    }
                    if let Some(s) = step.state.choice {
                        assert!(s < 3);
                    }
                }
            }
        }
    }
}

fn topology(mode: PluginMgmtMode, step: PluginMgmtFormStep) -> TopologyState {
    TopologyState { mode, step, selected: Some(0), focus: LoginFocus::FieldOne }
}

const EMPTY: Filled = Filled { one: false, two: false, parent: false };
const FULL: Filled = Filled { one: true, two: true, parent: true };

#[test]
fn topology_modes_go_round_and_reset_the_form() {
    let state = topology(PluginMgmtMode::View, PluginMgmtFormStep::EnterDetails);
    let step = topology_key(state, Key::Right, 2, None, FULL);
    assert_eq!(step.state.mode, PluginMgmtMode::AddPlugin);
    assert_eq!(step.state.step, PluginMgmtFormStep::SelectParent);
    assert_eq!(step.state.focus, LoginFocus::Username);
    assert_eq!(step.effect, TopologyEffect::ResetForm);
    let step = topology_key(state, Key::Left, 2, None, FULL);
    assert_eq!(step.state.mode, PluginMgmtMode::Remove);
    let mut at = state;
    for _ in 0..5 {
        at = topology_key(at, Key::Right, 2, None, EMPTY).state;
    }
    assert_eq!(at.mode, PluginMgmtMode::View);
}

#[test]
fn plugin_is_added_when_both_fields_are_filled() {
    let state = topology(PluginMgmtMode::AddPlugin, PluginMgmtFormStep::SelectParent);
    let step = topology_key(state, Key::Enter, 0, None, Filled { parent: false, ..FULL });
    assert_eq!(step.effect, TopologyEffect::SubmitPlugin);
    assert_eq!(step.state.mode, PluginMgmtMode::View);
    assert_eq!(step.state.focus, LoginFocus::Username);
    for filled in [EMPTY, Filled { one: true, ..EMPTY }, Filled { two: true, ..EMPTY }] {
        let step = topology_key(state, Key::Enter, 0, None, filled);
        assert_eq!((step.effect, step.state), (TopologyEffect::Nothing, state));
    }
    let step = topology_key(state, Key::Tab, 0, None, EMPTY);
    assert_eq!(step.state.focus, LoginFocus::FieldTwo);
    let step = topology_key(step.state, Key::Char('a'), 0, None, EMPTY);
    assert_eq!(step.effect, TopologyEffect::EditTwo);
    let step = topology_key(step.state, Key::Tab, 0, None, EMPTY);
    assert_eq!(step.state.focus, LoginFocus::FieldOne);
    let step = topology_key(state, Key::Backspace, 0, None, EMPTY);
    assert_eq!(step.effect, TopologyEffect::EditOne);
    assert!(step.consumed);
}

#[test]
fn child_needs_a_parent_of_the_right_level() {
    let plugin_row = Some(RowInfo { expandable: true, components: 1 });
    let subsection_row = Some(RowInfo { expandable: true, components: 2 });
    let entity_row = Some(RowInfo { expandable: false, components: 3 });
    let sub = topology(PluginMgmtMode::AddSubsection, PluginMgmtFormStep::SelectParent);
    let step = topology_key(sub, Key::Enter, 3, plugin_row, EMPTY);
    assert_eq!(step.effect, TopologyEffect::ChooseParent);
    assert_eq!(step.state.step, PluginMgmtFormStep::EnterDetails);
    assert_eq!(step.state.focus, LoginFocus::FieldOne);
    for row in [subsection_row, entity_row, None] {
        let step = topology_key(sub, Key::Enter, 3, row, EMPTY);
        assert_eq!((step.effect, step.state), (TopologyEffect::Nothing, sub));
    }
    let ent = topology(PluginMgmtMode::AddEntity, PluginMgmtFormStep::SelectParent);
    let step = topology_key(ent, Key::Enter, 3, subsection_row, EMPTY);
    assert_eq!(step.effect, TopologyEffect::ChooseParent);
    for row in [plugin_row, entity_row, None] {
        assert_eq!(topology_key(ent, Key::Enter, 3, row, EMPTY).effect, TopologyEffect::Nothing);
    }
    let details = topology(PluginMgmtMode::AddSubsection, PluginMgmtFormStep::EnterDetails);
    assert_eq!(topology_key(details, Key::Enter, 3, None, FULL).effect, TopologyEffect::SubmitSubsection);
    let details = topology(PluginMgmtMode::AddEntity, PluginMgmtFormStep::EnterDetails);
    let step = topology_key(details, Key::Enter, 3, None, FULL);
    assert_eq!(step.effect, TopologyEffect::SubmitEntity);
    assert_eq!(step.state.mode, PluginMgmtMode::View);
    assert_eq!(step.state.step, PluginMgmtFormStep::SelectParent);
    for filled in [
        Filled { one: false, ..FULL },
        Filled { two: false, ..FULL },
        Filled { parent: false, ..FULL },
    ] {
        assert_eq!(topology_key(details, Key::Enter, 3, None, filled).effect, TopologyEffect::Nothing);
    }
    let step = topology_key(details, Key::Backspace, 3, None, FULL);
    assert_eq!(step.state.step, PluginMgmtFormStep::SelectParent);
    let none = TopologyState { selected: None, ..ent };
    assert_eq!(topology_key(none, Key::Up, 3, None, EMPTY).state.selected, None);
    assert_eq!(topology_key(none, Key::Down, 3, None, EMPTY).state.selected, Some(0));
    assert!(!topology_key(none, Key::Char('x'), 3, None, EMPTY).consumed);
}

#[test]
fn topology_outline_moves_expands_and_stages() {
    let row = Some(RowInfo { expandable: true, components: 1 });
    let leaf = Some(RowInfo { expandable: false, components: 3 });
    let view = TopologyState { selected: None, ..topology(PluginMgmtMode::View, PluginMgmtFormStep::SelectParent) };
    assert_eq!(topology_key(view, Key::Up, 3, None, EMPTY).state.selected, Some(0));
    assert_eq!(topology_key(view, Key::Up, 0, None, EMPTY).state.selected, None);
    assert_eq!(topology_key(view, Key::Tab, 3, row, EMPTY).effect, TopologyEffect::Expand);
    assert_eq!(topology_key(view, Key::Tab, 3, leaf, EMPTY).effect, TopologyEffect::Nothing);
    assert_eq!(topology_key(view, Key::BackTab, 3, row, EMPTY).effect, TopologyEffect::Collapse);
    assert_eq!(topology_key(view, Key::Delete, 3, row, EMPTY).effect, TopologyEffect::Nothing);
    assert!(topology_key(view, Key::Delete, 3, row, EMPTY).consumed);
    assert!(!topology_key(view, Key::Enter, 3, row, EMPTY).consumed);
    let removing = topology(PluginMgmtMode::Remove, PluginMgmtFormStep::SelectParent);
    assert_eq!(topology_key(removing, Key::Delete, 3, leaf, EMPTY).effect, TopologyEffect::StageDeletion);
    assert_eq!(topology_key(removing, Key::Delete, 3, None, EMPTY).effect, TopologyEffect::Nothing);
}

fn editor(mode: DictionaryEditorMode, column: DictionaryColumn) -> DictionaryState {
    DictionaryState {
        mode,
        column,
        plugin: Some(0),
        status: None,
        command: None,
        focus: CommandFormFocus::Name,
        priority: 0,
        has_level: false,
        level: 1,
    }
}

const COUNTS: DictionaryCounts =
    DictionaryCounts { plugins: 2, chosen: true, statuses: Some(3), commands: Some(1) };

#[test]
fn dictionary_columns() {
    let view = editor(DictionaryEditorMode::View, DictionaryColumn::Plugins);
    let step = dictionary_key(view, Key::Tab, COUNTS, EMPTY);
    assert_eq!(step.state.column, DictionaryColumn::StatusCodes);
    assert_eq!(step.state.status, Some(0));
    let step = dictionary_key(step.state, Key::Down, COUNTS, EMPTY);
    assert_eq!(step.state.status, Some(1));
    let step = dictionary_key(step.state, Key::Tab, COUNTS, EMPTY);
    assert_eq!((step.state.column, step.state.command), (DictionaryColumn::Commands, Some(0)));
    let step = dictionary_key(step.state, Key::Down, COUNTS, EMPTY);
    assert_eq!(step.state.command, Some(0));
    let step = dictionary_key(step.state, Key::Tab, COUNTS, EMPTY);
    assert_eq!(step.state.column, DictionaryColumn::Plugins);
    assert_eq!(step.state.status, Some(1));
    let step = dictionary_key(view, Key::BackTab, COUNTS, EMPTY);
    assert_eq!((step.state.column, step.state.command), (DictionaryColumn::Commands, Some(0)));
    let step = dictionary_key(view, Key::Down, COUNTS, EMPTY);
    assert_eq!(step.state.plugin, Some(1));
    let step = dictionary_key(step.state, Key::Down, COUNTS, EMPTY);
    assert_eq!(step.state.plugin, Some(1));
    let step = dictionary_key(step.state, Key::Up, COUNTS, EMPTY);
    assert_eq!(step.state.plugin, Some(0));
    let none = DictionaryState { plugin: None, ..view };
    assert_eq!(dictionary_key(none, Key::Up, COUNTS, EMPTY).state.plugin, Some(0));
    assert_eq!(dictionary_key(none, Key::Down, COUNTS, EMPTY).state.plugin, Some(1));
    let nothing = DictionaryCounts { plugins: 0, chosen: false, statuses: None, commands: None };
    assert_eq!(dictionary_key(none, Key::Down, nothing, EMPTY).state.plugin, None);
    let statuses = editor(DictionaryEditorMode::View, DictionaryColumn::StatusCodes);
    assert_eq!(dictionary_key(statuses, Key::Down, nothing, EMPTY).state, statuses);
    assert!(!dictionary_key(view, Key::Enter, COUNTS, EMPTY).consumed);
}

#[test]
fn dictionary_insert_and_delete() {
    let statuses = DictionaryState {
        status: Some(2),
        priority: 2,
        has_level: true,
        level: 4,
        focus: CommandFormFocus::Level,
        ..editor(DictionaryEditorMode::View, DictionaryColumn::StatusCodes)
    };
    let step = dictionary_key(statuses, Key::Insert, COUNTS, FULL);
    assert_eq!(step.state.mode, DictionaryEditorMode::AddStatus);
    assert_eq!(step.effect, DictionaryEffect::ResetCommandForm);
    assert_eq!(step.state.priority, 0);
    assert!(!step.state.has_level);
    assert_eq!(step.state.level, 1);
    assert_eq!(step.state.focus, CommandFormFocus::Name);
    let commands = editor(DictionaryEditorMode::View, DictionaryColumn::Commands);
    assert_eq!(dictionary_key(commands, Key::Insert, COUNTS, FULL).state.mode, DictionaryEditorMode::AddCommand);
    let plugins = editor(DictionaryEditorMode::View, DictionaryColumn::Plugins);
    assert_eq!(dictionary_key(plugins, Key::Insert, COUNTS, FULL).state.mode, DictionaryEditorMode::View);
    assert_eq!(dictionary_key(statuses, Key::Delete, COUNTS, EMPTY).effect, DictionaryEffect::StageStatusDeletion(2));
    let past = DictionaryState { status: Some(3), ..statuses };
    assert_eq!(dictionary_key(past, Key::Delete, COUNTS, EMPTY).effect, DictionaryEffect::Nothing);
    let unchosen = DictionaryCounts { chosen: false, ..COUNTS };
    assert_eq!(dictionary_key(statuses, Key::Delete, unchosen, EMPTY).effect, DictionaryEffect::Nothing);
    let picked = DictionaryState { command: Some(0), ..commands };
    assert_eq!(dictionary_key(picked, Key::Delete, COUNTS, EMPTY).effect, DictionaryEffect::StageCommandDeletion(0));
    assert_eq!(dictionary_key(commands, Key::Delete, COUNTS, EMPTY).effect, DictionaryEffect::Nothing);
    assert_eq!(dictionary_key(plugins, Key::Delete, COUNTS, EMPTY).effect, DictionaryEffect::Nothing);
    assert!(dictionary_key(plugins, Key::Delete, COUNTS, EMPTY).consumed);
}

#[test]
fn status_form() {
    let form = editor(DictionaryEditorMode::AddStatus, DictionaryColumn::StatusCodes);
    let step = dictionary_key(form, Key::Enter, COUNTS, Filled { one: true, ..EMPTY });
    assert_eq!(step.effect, DictionaryEffect::SubmitStatus);
    assert_eq!(step.state.mode, DictionaryEditorMode::View);
    let step = dictionary_key(form, Key::Enter, COUNTS, EMPTY);
    assert_eq!((step.effect, step.state), (DictionaryEffect::Nothing, form));
    let step = dictionary_key(form, Key::End, COUNTS, FULL);
    assert_eq!(step.effect, DictionaryEffect::ResetStatusForm);
    assert_eq!(step.state.mode, DictionaryEditorMode::View);
    assert_eq!(dictionary_key(form, Key::Char('x'), COUNTS, EMPTY).effect, DictionaryEffect::EditOne);
    let unchosen = DictionaryCounts { chosen: false, ..COUNTS };
    let step = dictionary_key(form, Key::Enter, unchosen, FULL);
    assert_eq!((step.effect, step.state.mode), (DictionaryEffect::Nothing, DictionaryEditorMode::View));
    assert!(step.consumed);
}

#[test]
fn command_form() {
    let form = editor(DictionaryEditorMode::AddCommand, DictionaryColumn::Commands);
    let step = dictionary_key(form, Key::Tab, COUNTS, EMPTY);
    assert_eq!(step.state.focus, CommandFormFocus::Key);
    assert_eq!(dictionary_key(step.state, Key::Char('k'), COUNTS, EMPTY).effect, DictionaryEffect::EditTwo);
    let step = dictionary_key(step.state, Key::Tab, COUNTS, EMPTY);
    assert_eq!(step.state.focus, CommandFormFocus::Priority);
    let step = dictionary_key(step.state, Key::Right, COUNTS, EMPTY);
    assert_eq!(step.state.priority, 1);
    let step = dictionary_key(step.state, Key::Right, COUNTS, EMPTY);
    let step = dictionary_key(step.state, Key::Right, COUNTS, EMPTY);
    assert_eq!(step.state.priority, 0);
    let step = dictionary_key(step.state, Key::Left, COUNTS, EMPTY);
    assert_eq!(step.state.priority, 2);
    let step = dictionary_key(step.state, Key::Tab, COUNTS, EMPTY);
    assert_eq!(step.state.focus, CommandFormFocus::HasLevel);
    let unticked = dictionary_key(step.state, Key::Char('x'), COUNTS, EMPTY);
    assert!(!unticked.state.has_level);
    let step = dictionary_key(step.state, Key::Char(' '), COUNTS, EMPTY);
    assert!(step.state.has_level);
    let step = dictionary_key(step.state, Key::Tab, COUNTS, EMPTY);
    assert_eq!(step.state.focus, CommandFormFocus::Level);
    let step = dictionary_key(step.state, Key::Left, COUNTS, EMPTY);
    assert_eq!(step.state.level, 5);
    let step = dictionary_key(step.state, Key::Right, COUNTS, EMPTY);
    assert_eq!(step.state.level, 1);
    let step = dictionary_key(step.state, Key::Right, COUNTS, EMPTY);
    assert_eq!(step.state.level, 2);
    let without = DictionaryState { has_level: false, ..step.state };
    assert_eq!(dictionary_key(without, Key::Right, COUNTS, EMPTY).state.level, 2);
    let back = dictionary_key(step.state, Key::BackTab, COUNTS, EMPTY);
    assert_eq!(back.state.focus, CommandFormFocus::HasLevel);
    let sent = dictionary_key(step.state, Key::Enter, COUNTS, FULL);
    assert_eq!(sent.effect, DictionaryEffect::SubmitCommand);
    assert_eq!(sent.state.mode, DictionaryEditorMode::View);
    assert_eq!((sent.state.priority, sent.state.has_level, sent.state.level), (0, false, 1));
    for filled in [EMPTY, Filled { one: true, ..EMPTY }, Filled { two: true, ..EMPTY }] {
        assert_eq!(dictionary_key(step.state, Key::Enter, COUNTS, filled).effect, DictionaryEffect::Nothing);
    }
    let ended = dictionary_key(step.state, Key::End, COUNTS, FULL);
    assert_eq!(ended.effect, DictionaryEffect::ResetCommandForm);
    assert_eq!(ended.state.mode, DictionaryEditorMode::View);
}

#[test]
fn log_view() {
    let live = LogViewState { mode: LogViewerMode::Live, file: None, line: None };
    assert!(!log_view_key(live, Key::Down, 3, 0).consumed);
    let step = log_view_key(live, Key::Right, 3, 0);
    assert_eq!(step.state.mode, LogViewerMode::Browser);
    let step = log_view_key(step.state, Key::Down, 3, 0);
    assert_eq!(step.state.file, Some(0));
    let step = log_view_key(step.state, Key::Down, 3, 0);
    assert_eq!(step.state.file, Some(1));
    let open = log_view_key(step.state, Key::Enter, 3, 0);
    assert_eq!(open.effect, LogViewEffect::OpenFile(1));
    let reading = LogViewState { line: Some(0), ..open.state };
    let step = log_view_key(reading, Key::Down, 3, 10);
    assert_eq!((step.state.file, step.state.line), (Some(1), Some(1)));
    let step = log_view_key(step.state, Key::Enter, 3, 10);
    assert_eq!((step.effect, step.consumed), (LogViewEffect::Nothing, false));
    let step = log_view_key(step.state, Key::Backspace, 3, 10);
    assert_eq!(step.effect, LogViewEffect::CloseFile);
    assert_eq!(step.state.line, None);
    assert_eq!(log_view_key(reading, Key::Esc, 3, 10).effect, LogViewEffect::CloseFile);
    let browsing = LogViewState { mode: LogViewerMode::Browser, file: None, line: None };
    assert_eq!(log_view_key(browsing, Key::Enter, 3, 0).effect, LogViewEffect::Nothing);
    assert_eq!(log_view_key(browsing, Key::Up, 3, 0).state.file, Some(0));
    assert_eq!(log_view_key(browsing, Key::Up, 0, 0).state.file, None);
    let stale = LogViewState { file: Some(7), ..browsing };
    assert_eq!(log_view_key(stale, Key::Enter, 3, 0).effect, LogViewEffect::Nothing);
    assert_eq!(log_view_key(browsing, Key::Left, 3, 0).state.mode, LogViewerMode::Live);
}
