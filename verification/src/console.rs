//! What a key press does to the administrator console. Each view has its
//! state as plain values and a step that answers the state after a key, what
//! the surrounding program has to do, and whether the key was used up. The
//! steps read no text and touch no store: they are told how long the lists
//! are, what kind of row is selected and which fields are filled in.

use vstd::prelude::*;
use crate::state::{
    AuthenticatedMode, CommandFormFocus, DictionaryColumn, DictionaryEditorMode,
    DirectiveFormStep, DirectiveMode, LogViewerMode, LoginFocus, PluginMgmtFormStep,
    PluginMgmtMode, cycle_level, cycle_priority, select_down, select_up, spec_cycle_level,
    spec_cycle_priority, spec_select_down, spec_select_up,
};
use crate::tree::NodeType;

verus! {

/// A key press, as far as the console tells keys apart.
#[derive(Clone, Copy, Debug, PartialEq, Eq)]
pub enum Key {
    Up,
    Down,
    Left,
    Right,
    Tab,
    BackTab,
    Enter,
    Delete,
    Insert,
    End,
    Backspace,
    Esc,
    Char(char),
    Other,
}

/// What a key does while an action waits for its confirmation code.
#[derive(Clone, Copy, Debug, PartialEq, Eq, Structural)]
pub enum GateEffect {
    /// The key goes to the field that takes the code.
    Typing,
    /// The action is dropped.
    Cancelled,
    /// The code was right: the action goes ahead.
    Confirmed,
    /// The code was wrong: the action is dropped with a warning.
    Denied,
}

/// What the console shows after a confirmed action.
pub const ACTION_CONFIRMED: &'static str = "Action confirmed. Operation in progress.";

/// What the console shows after a wrong code.
pub const ACTION_DENIED: &'static str = "Authentication code incorrect. Action cancelled.";

/// What a key does while an action waits for its confirmation code.
/// `authorized` says whether what has been typed so far is the code that the
/// action expects.
pub open spec fn spec_gate_key(key: Key, authorized: bool) -> GateEffect {
    match key {
        Key::Enter => if authorized {
            GateEffect::Confirmed
        } else {
            GateEffect::Denied
        },
        Key::Esc => GateEffect::Cancelled,
        Key::End => GateEffect::Cancelled,
        _ => GateEffect::Typing,
    }
}

/// What a key does while an action waits for its confirmation code.
/// `authorized` says whether what has been typed so far is the code that the
/// action expects.
pub fn gate_key(key: Key, authorized: bool) -> (r: GateEffect)
    ensures
        r == spec_gate_key(key, authorized),
{
    match key {
        Key::Enter => if authorized {
            GateEffect::Confirmed
        } else {
            GateEffect::Denied
        },
        Key::Esc => GateEffect::Cancelled,
        Key::End => GateEffect::Cancelled,
        _ => GateEffect::Typing,
    }
}

/// A pending action goes ahead on one path only: the key is Enter and the
/// typed code is the expected one.
pub proof fn lemma_gate_needs_the_code(key: Key, authorized: bool)
    ensures
        spec_gate_key(key, authorized) == GateEffect::Confirmed <==> key == Key::Enter && authorized,
{
}

/// Whether the key ends the console once it has been handled.
pub fn quits(key: Key) -> (r: bool)
    ensures
        r == (key == Key::Esc),
{
    match key {
        Key::Esc => true,
        _ => false,
    }
}

/// What a key does that no view has used up.
#[derive(Clone, Copy, Debug, PartialEq, Eq, Structural)]
pub enum GlobalEffect {
    Nothing,
    /// Show another view.
    Show(AuthenticatedMode),
    /// Write the recent log lines to a snapshot file.
    Snapshot,
    /// Go back to the login screen.
    Logout,
}

/// What a key does that no view has used up: `s` takes a snapshot, `q` logs
/// out, and a digit shows its view.
pub open spec fn spec_global_key(key: Key) -> GlobalEffect {
    match key {
        Key::Char(c) => if c == 's' {
            GlobalEffect::Snapshot
        } else if c == 'q' {
            GlobalEffect::Logout
        } else {
            match AuthenticatedMode::spec_from_key(c) {
                Some(mode) => GlobalEffect::Show(mode),
                None => GlobalEffect::Nothing,
            }
        },
        _ => GlobalEffect::Nothing,
    }
}

/// What a key does that no view has used up: `s` takes a snapshot, `q` logs
/// out, and a digit shows its view.
pub fn global_key(key: Key) -> (r: GlobalEffect)
    ensures
        r == spec_global_key(key),
{
    match key {
        Key::Char(c) => if c == 's' {
            GlobalEffect::Snapshot
        } else if c == 'q' {
            GlobalEffect::Logout
        } else {
            match AuthenticatedMode::from_key(c) {
                Some(mode) => GlobalEffect::Show(mode),
                None => GlobalEffect::Nothing,
            }
        },
        _ => GlobalEffect::Nothing,
    }
}

/// What a key does on the login screen.
#[derive(Clone, Copy, Debug, PartialEq, Eq, Structural)]
pub enum LoginEffect {
    Nothing,
    /// Check the credentials that the two fields hold.
    Submit,
    /// The key goes to the username field.
    EditUsername,
    /// The key goes to the password field.
    EditPassword,
}

/// The login screen after a key.
#[derive(Clone, Copy, Debug, PartialEq, Eq, Structural)]
pub struct LoginStep {
    pub focus: LoginFocus,
    pub effect: LoginEffect,
    /// Whether a shown error disappears.
    pub clears_error: bool,
}

/// The login screen after a key: Enter submits and puts the focus on the
/// username, the tabulator changes the field, and any other key goes to the
/// field in focus and clears a shown error.
pub open spec fn spec_login_key(focus: LoginFocus, key: Key) -> LoginStep {
    match key {
        Key::Enter => LoginStep {
            focus: LoginFocus::Username,
            effect: LoginEffect::Submit,
            clears_error: false,
        },
        Key::Tab => LoginStep {
            focus: focus.spec_toggle_login(),
            effect: LoginEffect::Nothing,
            clears_error: false,
        },
        _ => LoginStep {
            focus,
            effect: match focus {
                LoginFocus::Username => LoginEffect::EditUsername,
                LoginFocus::Password => LoginEffect::EditPassword,
                _ => LoginEffect::Nothing,
            },
            clears_error: true,
        },
    }
}

/// The login screen after a key: Enter submits and puts the focus on the
/// username, the tabulator changes the field, and any other key goes to the
/// field in focus and clears a shown error.
pub fn login_key(focus: LoginFocus, key: Key) -> (r: LoginStep)
    ensures
        r == spec_login_key(focus, key),
{
    match key {
        Key::Enter => LoginStep {
            focus: LoginFocus::Username,
            effect: LoginEffect::Submit,
            clears_error: false,
        },
        Key::Tab => LoginStep {
            focus: focus.toggle_login(),
            effect: LoginEffect::Nothing,
            clears_error: false,
        },
        _ => LoginStep {
            focus,
            effect: match focus {
                LoginFocus::Username => LoginEffect::EditUsername,
                LoginFocus::Password => LoginEffect::EditPassword,
                _ => LoginEffect::Nothing,
            },
            clears_error: true,
        },
    }
}

/// The state of the directive view.
#[derive(Clone, Copy, Debug, PartialEq, Eq)]
pub struct DirectiveState {
    pub mode: DirectiveMode,
    pub step: DirectiveFormStep,
    /// The selected row of the outline.
    pub selected: Option<usize>,
    /// The selected choice of the form.
    pub choice: Option<usize>,
}

/// What the surrounding program has to do after a key in the directive
/// view.
#[derive(Clone, Copy, Debug, PartialEq, Eq)]
pub enum DirectiveEffect {
    Nothing,
    /// Forget what the form has put together.
    ResetWizard,
    /// Show what is below the selected row.
    Expand,
    /// Hide what is below the selected row.
    Collapse,
    /// The selected row is the trigger of the new directive: offer its
    /// status codes.
    PickTarget,
    /// The selected row is the target of the new directive's command: offer
    /// its command templates.
    PickActionTarget,
    /// The choice of that number is the status of the new directive.
    PickStatus(usize),
    /// The choice of that number is the command of the new directive.
    PickCommand(usize),
    /// Save the directive that the form has put together, then forget it.
    SaveDirective,
    /// Ask for the code that confirms the deletion of the selected rule.
    StageDeletion,
}

/// The directive view after a key.
#[derive(Clone, Copy, Debug, PartialEq, Eq)]
pub struct DirectiveStep {
    pub state: DirectiveState,
    pub effect: DirectiveEffect,
    pub consumed: bool,
}

/// The state in which the directive view starts.
pub open spec fn spec_directive_start() -> DirectiveState {
    DirectiveState {
        mode: DirectiveMode::View,
        step: DirectiveFormStep::SelectTarget,
        selected: None,
        choice: None,
    }
}

/// The state in which the directive view starts.
pub fn directive_start() -> (r: DirectiveState)
    ensures
        r == spec_directive_start(),
{
    DirectiveState {
        mode: DirectiveMode::View,
        step: DirectiveFormStep::SelectTarget,
        selected: None,
        choice: None,
    }
}

/// The selection among freshly offered choices: the first, if there is any.
pub open spec fn spec_first_choice(choices: usize) -> Option<usize> {
    if choices == 0 {
        None
    } else {
        Some(0usize)
    }
}

/// The selection among freshly offered choices: the first, if there is any.
pub fn first_choice(choices: usize) -> (r: Option<usize>)
    ensures
        r == spec_first_choice(choices),
{
    if choices == 0 {
        None
    } else {
        Some(0usize)
    }
}

/// The directive view after a key on the outline. `rows` is the number of rows,
/// `row` the kind of the selected row, if a row is selected.
pub open spec fn spec_outline_key(state: DirectiveState, key: Key, rows: usize, row: Option<NodeType>) -> DirectiveStep {
    match key {
        Key::Up => DirectiveStep {
            state: DirectiveState { selected: spec_select_up(state.selected, rows), ..state },
            effect: DirectiveEffect::Nothing,
            consumed: true,
        },
        Key::Down => DirectiveStep {
            state: DirectiveState { selected: spec_select_down(state.selected, rows), ..state },
            effect: DirectiveEffect::Nothing,
            consumed: true,
        },
        Key::Tab => DirectiveStep {
            state,
            effect: match row {
                Some(NodeType::Plugin) => DirectiveEffect::Expand,
                Some(NodeType::Subsection) => DirectiveEffect::Expand,
                _ => DirectiveEffect::Nothing,
            },
            consumed: true,
        },
        Key::BackTab => DirectiveStep {
            state,
            effect: match row {
                Some(NodeType::Plugin) => DirectiveEffect::Collapse,
                Some(NodeType::Subsection) => DirectiveEffect::Collapse,
                _ => DirectiveEffect::Nothing,
            },
            consumed: true,
        },
        Key::Enter => if state.mode == DirectiveMode::Add && row.is_some() {
            if state.step == DirectiveFormStep::SelectTarget {
                DirectiveStep {
                    state: DirectiveState { step: DirectiveFormStep::SelectStatus, ..state },
                    effect: DirectiveEffect::PickTarget,
                    consumed: true,
                }
            } else if state.step == DirectiveFormStep::SelectActionTarget {
                DirectiveStep {
                    state: DirectiveState { step: DirectiveFormStep::SelectCommand, ..state },
                    effect: DirectiveEffect::PickActionTarget,
                    consumed: true,
                }
            } else {
                DirectiveStep { state, effect: DirectiveEffect::Nothing, consumed: true }
            }
        } else {
            DirectiveStep { state, effect: DirectiveEffect::Nothing, consumed: true }
        },
        Key::Delete => DirectiveStep {
            state,
            effect: if state.mode == DirectiveMode::Remove {
                match row {
                    Some(NodeType::Rule) => DirectiveEffect::StageDeletion,
                    _ => DirectiveEffect::Nothing,
                }
            } else {
                DirectiveEffect::Nothing
            },
            consumed: true,
        },
        _ => DirectiveStep { state, effect: DirectiveEffect::Nothing, consumed: false },
    }
}

/// The directive view after a key on the outline. `rows` is the number of rows,
/// `row` the kind of the selected row, if a row is selected.
pub fn outline_key(state: DirectiveState, key: Key, rows: usize, row: Option<NodeType>) -> (r: DirectiveStep)
    ensures
        r == spec_outline_key(state, key, rows, row),
{
    match key {
        Key::Up => DirectiveStep {
            state: DirectiveState { selected: select_up(state.selected, rows), ..state },
            effect: DirectiveEffect::Nothing,
            consumed: true,
        },
        Key::Down => DirectiveStep {
            state: DirectiveState { selected: select_down(state.selected, rows), ..state },
            effect: DirectiveEffect::Nothing,
            consumed: true,
        },
        Key::Tab => DirectiveStep {
            state,
            effect: match row {
                Some(NodeType::Plugin) => DirectiveEffect::Expand,
                Some(NodeType::Subsection) => DirectiveEffect::Expand,
                _ => DirectiveEffect::Nothing,
            },
            consumed: true,
        },
        Key::BackTab => DirectiveStep {
            state,
            effect: match row {
                Some(NodeType::Plugin) => DirectiveEffect::Collapse,
                Some(NodeType::Subsection) => DirectiveEffect::Collapse,
                _ => DirectiveEffect::Nothing,
            },
            consumed: true,
        },
        Key::Enter => if state.mode == DirectiveMode::Add && row.is_some() {
            if state.step == DirectiveFormStep::SelectTarget {
                DirectiveStep {
                    state: DirectiveState { step: DirectiveFormStep::SelectStatus, ..state },
                    effect: DirectiveEffect::PickTarget,
                    consumed: true,
                }
            } else if state.step == DirectiveFormStep::SelectActionTarget {
                DirectiveStep {
                    state: DirectiveState { step: DirectiveFormStep::SelectCommand, ..state },
                    effect: DirectiveEffect::PickActionTarget,
                    consumed: true,
                }
            } else {
                DirectiveStep { state, effect: DirectiveEffect::Nothing, consumed: true }
            }
        } else {
            DirectiveStep { state, effect: DirectiveEffect::Nothing, consumed: true }
        },
        Key::Delete => DirectiveStep {
            state,
            effect: if state.mode == DirectiveMode::Remove {
                match row {
                    Some(NodeType::Rule) => DirectiveEffect::StageDeletion,
                    _ => DirectiveEffect::Nothing,
                }
            } else {
                DirectiveEffect::Nothing
            },
            consumed: true,
        },
        _ => DirectiveStep { state, effect: DirectiveEffect::Nothing, consumed: false },
    }
}

/// The directive view after a key on the list of choices. `choices` is the
/// number of choices offered.
pub open spec fn spec_choice_key(state: DirectiveState, key: Key, choices: usize) -> DirectiveStep {
    match key {
        Key::Up => DirectiveStep {
            state: DirectiveState {
                choice: match state.choice {
                    Some(_) => spec_select_up(state.choice, choices),
                    None => None,
                },
                ..state
            },
            effect: DirectiveEffect::Nothing,
            consumed: true,
        },
        Key::Down => DirectiveStep {
            state: DirectiveState { choice: spec_select_down(state.choice, choices), ..state },
            effect: DirectiveEffect::Nothing,
            consumed: true,
        },
        Key::Enter => match state.choice {
            Some(s) => if s < choices && state.step == DirectiveFormStep::SelectStatus {
                DirectiveStep {
                    state: DirectiveState { step: DirectiveFormStep::SelectActionTarget, ..state },
                    effect: DirectiveEffect::PickStatus(s),
                    consumed: true,
                }
            } else if s < choices && state.step == DirectiveFormStep::SelectCommand {
                DirectiveStep {
                    state: DirectiveState { step: DirectiveFormStep::Confirm, ..state },
                    effect: DirectiveEffect::PickCommand(s),
                    consumed: true,
                }
            } else {
                DirectiveStep { state, effect: DirectiveEffect::Nothing, consumed: true }
            },
            None => DirectiveStep { state, effect: DirectiveEffect::Nothing, consumed: true },
        },
        _ => DirectiveStep { state, effect: DirectiveEffect::Nothing, consumed: false },
    }
}

/// The directive view after a key on the list of choices. `choices` is the
/// number of choices offered.
pub fn choice_key(state: DirectiveState, key: Key, choices: usize) -> (r: DirectiveStep)
    ensures
        r == spec_choice_key(state, key, choices),
{
    match key {
        Key::Up => DirectiveStep {
            state: DirectiveState {
                choice: match state.choice {
                    Some(_) => select_up(state.choice, choices),
                    None => None,
                },
                ..state
            },
            effect: DirectiveEffect::Nothing,
            consumed: true,
        },
        Key::Down => DirectiveStep {
            state: DirectiveState { choice: select_down(state.choice, choices), ..state },
            effect: DirectiveEffect::Nothing,
            consumed: true,
        },
        Key::Enter => match state.choice {
            Some(s) => if s < choices && state.step == DirectiveFormStep::SelectStatus {
                DirectiveStep {
                    state: DirectiveState { step: DirectiveFormStep::SelectActionTarget, ..state },
                    effect: DirectiveEffect::PickStatus(s),
                    consumed: true,
                }
            } else if s < choices && state.step == DirectiveFormStep::SelectCommand {
                DirectiveStep {
                    state: DirectiveState { step: DirectiveFormStep::Confirm, ..state },
                    effect: DirectiveEffect::PickCommand(s),
                    consumed: true,
                }
            } else {
                DirectiveStep { state, effect: DirectiveEffect::Nothing, consumed: true }
            },
            None => DirectiveStep { state, effect: DirectiveEffect::Nothing, consumed: true },
        },
        _ => DirectiveStep { state, effect: DirectiveEffect::Nothing, consumed: false },
    }
}

/// The directive view after a key that is neither End nor a step back nor a
/// change of mode: in the form it goes to the outline, to the choices or to the
/// confirmation, as the step asks; outside the form it goes to the outline.
pub open spec fn spec_form_key(state: DirectiveState, key: Key, rows: usize, row: Option<NodeType>, choices: usize) -> DirectiveStep {
    if state.mode == DirectiveMode::Add {
        match state.step {
            DirectiveFormStep::SelectStatus => spec_choice_key(state, key, choices),
            DirectiveFormStep::SelectCommand => spec_choice_key(state, key, choices),
            DirectiveFormStep::Confirm => match key {
                Key::Insert => DirectiveStep {
                    state: DirectiveState {
                        mode: DirectiveMode::View,
                        step: DirectiveFormStep::SelectTarget,
                        choice: None,
                        ..state
                    },
                    effect: DirectiveEffect::SaveDirective,
                    consumed: true,
                },
                _ => DirectiveStep { state, effect: DirectiveEffect::Nothing, consumed: false },
            },
            _ => spec_outline_key(state, key, rows, row),
        }
    } else {
        spec_outline_key(state, key, rows, row)
    }
}

/// The directive view after a key that is neither End nor a step back nor a
/// change of mode: in the form it goes to the outline, to the choices or to the
/// confirmation, as the step asks; outside the form it goes to the outline.
pub fn form_key(state: DirectiveState, key: Key, rows: usize, row: Option<NodeType>, choices: usize) -> (r: DirectiveStep)
    ensures
        r == spec_form_key(state, key, rows, row, choices),
{
    if state.mode == DirectiveMode::Add {
        match state.step {
            DirectiveFormStep::SelectStatus => choice_key(state, key, choices),
            DirectiveFormStep::SelectCommand => choice_key(state, key, choices),
            DirectiveFormStep::Confirm => match key {
                Key::Insert => DirectiveStep {
                    state: DirectiveState {
                        mode: DirectiveMode::View,
                        step: DirectiveFormStep::SelectTarget,
                        choice: None,
                        ..state
                    },
                    effect: DirectiveEffect::SaveDirective,
                    consumed: true,
                },
                _ => DirectiveStep { state, effect: DirectiveEffect::Nothing, consumed: false },
            },
            _ => outline_key(state, key, rows, row),
        }
    } else {
        outline_key(state, key, rows, row)
    }
}

/// The directive view after a key. End leaves the form; Backspace goes one step
/// back in the form; left and right change the mode while no form step is under
/// way; every other key goes on to the outline or the form.
pub open spec fn spec_directive_key(state: DirectiveState, key: Key, rows: usize, row: Option<NodeType>, choices: usize) -> DirectiveStep {
    match key {
        Key::End => DirectiveStep {
            state: DirectiveState {
                mode: DirectiveMode::View,
                step: DirectiveFormStep::SelectTarget,
                choice: None,
                ..state
            },
            effect: DirectiveEffect::ResetWizard,
            consumed: true,
        },
        Key::Backspace => if state.mode == DirectiveMode::Add {
            match state.step.spec_back() {
                Some(step) => DirectiveStep {
                    state: DirectiveState { step, ..state },
                    effect: DirectiveEffect::Nothing,
                    consumed: true,
                },
                None => spec_form_key(state, key, rows, row, choices),
            }
        } else {
            spec_form_key(state, key, rows, row, choices)
        },
        Key::Right => if state.step == DirectiveFormStep::SelectTarget {
            DirectiveStep {
                state: DirectiveState { mode: state.mode.spec_next(), ..state },
                effect: DirectiveEffect::Nothing,
                consumed: true,
            }
        } else {
            spec_form_key(state, key, rows, row, choices)
        },
        Key::Left => if state.step == DirectiveFormStep::SelectTarget {
            DirectiveStep {
                state: DirectiveState { mode: state.mode.spec_prev(), ..state },
                effect: DirectiveEffect::Nothing,
                consumed: true,
            }
        } else {
            spec_form_key(state, key, rows, row, choices)
        },
        _ => spec_form_key(state, key, rows, row, choices),
    }
}

/// The directive view after a key. End leaves the form; Backspace goes one step
/// back in the form; left and right change the mode while no form step is under
/// way; every other key goes on to the outline or the form.
pub fn directive_key(state: DirectiveState, key: Key, rows: usize, row: Option<NodeType>, choices: usize) -> (r: DirectiveStep)
    ensures
        r == spec_directive_key(state, key, rows, row, choices),
{
    match key {
        Key::End => DirectiveStep {
            state: DirectiveState {
                mode: DirectiveMode::View,
                step: DirectiveFormStep::SelectTarget,
                choice: None,
                ..state
            },
            effect: DirectiveEffect::ResetWizard,
            consumed: true,
        },
        Key::Backspace => if state.mode == DirectiveMode::Add {
            match state.step.back() {
                Some(step) => DirectiveStep {
                    state: DirectiveState { step, ..state },
                    effect: DirectiveEffect::Nothing,
                    consumed: true,
                },
                None => form_key(state, key, rows, row, choices),
            }
        } else {
            form_key(state, key, rows, row, choices)
        },
        Key::Right => if state.step == DirectiveFormStep::SelectTarget {
            DirectiveStep {
                state: DirectiveState { mode: state.mode.next(), ..state },
                effect: DirectiveEffect::Nothing,
                consumed: true,
            }
        } else {
            form_key(state, key, rows, row, choices)
        },
        Key::Left => if state.step == DirectiveFormStep::SelectTarget {
            DirectiveStep {
                state: DirectiveState { mode: state.mode.prev(), ..state },
                effect: DirectiveEffect::Nothing,
                consumed: true,
            }
        } else {
            form_key(state, key, rows, row, choices)
        },
        _ => form_key(state, key, rows, row, choices),
    }
}

/// A rule is put up for deletion only in the remove mode, on a selected row
/// that is a rule; a directive is saved only from the confirmation step of
/// the form; and a row becomes a target only in the form.
pub proof fn lemma_directive_effects(state: DirectiveState, key: Key, rows: usize, row: Option<NodeType>, choices: usize)
    ensures
        spec_directive_key(state, key, rows, row, choices).effect == DirectiveEffect::StageDeletion
            ==> state.mode == DirectiveMode::Remove && row == Some(NodeType::Rule) && key
            == Key::Delete,
        spec_directive_key(state, key, rows, row, choices).effect == DirectiveEffect::SaveDirective
            ==> state.mode == DirectiveMode::Add && state.step == DirectiveFormStep::Confirm && key
            == Key::Insert,
        spec_directive_key(state, key, rows, row, choices).effect == DirectiveEffect::PickTarget
            ==> state.mode == DirectiveMode::Add && row is Some,
        spec_directive_key(state, key, rows, row, choices).effect
            == DirectiveEffect::PickActionTarget ==> state.mode == DirectiveMode::Add && row is Some,
{
}

/// End and a saved directive both leave the view where it started, but for
/// the selected row.
pub proof fn lemma_directive_form_ends(state: DirectiveState, key: Key, rows: usize, row: Option<NodeType>, choices: usize)
    ensures
        key == Key::End || spec_directive_key(state, key, rows, row, choices).effect
            == DirectiveEffect::SaveDirective ==> spec_directive_key(
            state,
            key,
            rows,
            row,
            choices,
        ).state == (DirectiveState { selected: state.selected, ..spec_directive_start() }),
{
}

/// Selections that lie within their lists stay within them, and a picked
/// choice is one of the choices offered.
pub proof fn lemma_directive_selection(state: DirectiveState, key: Key, rows: usize, row: Option<NodeType>, choices: usize)
    requires
        match state.selected {
            Some(s) => s < rows,
            None => true,
        },
        match state.choice {
            Some(s) => s < choices,
            None => true,
        },
    ensures
        match spec_directive_key(state, key, rows, row, choices).state.selected {
            Some(s) => s < rows,
            None => true,
        },
        match spec_directive_key(state, key, rows, row, choices).state.choice {
            Some(s) => s < choices,
            None => true,
        },
        match spec_directive_key(state, key, rows, row, choices).effect {
            DirectiveEffect::PickStatus(s) => s < choices,
            DirectiveEffect::PickCommand(s) => s < choices,
            _ => true,
        },
{
}

/// What is known of the selected row of the topology outline.
#[derive(Clone, Copy, Debug, PartialEq, Eq, Structural)]
pub struct RowInfo {
    /// Whether the row can show what is below it.
    pub expandable: bool,
    /// The number of components of the row's identifier.
    pub components: usize,
}

/// Which texts of a form are not empty.
#[derive(Clone, Copy, Debug, PartialEq, Eq, Structural)]
pub struct Filled {
    pub one: bool,
    pub two: bool,
    pub parent: bool,
}

/// The state of the topology view.
#[derive(Clone, Copy, Debug, PartialEq, Eq)]
pub struct TopologyState {
    pub mode: PluginMgmtMode,
    pub step: PluginMgmtFormStep,
    pub selected: Option<usize>,
    pub focus: LoginFocus,
}

/// What the surrounding program has to do after a key in the topology
/// view.
#[derive(Clone, Copy, Debug, PartialEq, Eq, Structural)]
pub enum TopologyEffect {
    Nothing,
    /// Empty the two fields and forget the chosen parent.
    ResetForm,
    /// Show what is below the selected row.
    Expand,
    /// Hide what is below the selected row.
    Collapse,
    /// Ask for the code that confirms the deletion of the selected node.
    StageDeletion,
    /// The selected row is the parent of the new node.
    ChooseParent,
    /// Add the plugin group that the fields describe, then reset the form.
    SubmitPlugin,
    /// Add the subsection that the fields describe below the chosen parent,
    /// then reset the form.
    SubmitSubsection,
    /// Add the entity that the fields describe below the chosen parent, then
    /// reset the form.
    SubmitEntity,
    /// The key goes to the first field.
    EditOne,
    /// The key goes to the second field.
    EditTwo,
}

/// The topology view after a key.
#[derive(Clone, Copy, Debug, PartialEq, Eq)]
pub struct TopologyStep {
    pub state: TopologyState,
    pub effect: TopologyEffect,
    pub consumed: bool,
}

/// Where a key goes in a two-field form: to the field in focus.
pub open spec fn spec_edit_field(focus: LoginFocus) -> TopologyEffect {
    match focus {
        LoginFocus::FieldOne => TopologyEffect::EditOne,
        LoginFocus::FieldTwo => TopologyEffect::EditTwo,
        _ => TopologyEffect::Nothing,
    }
}

/// Where a key goes in a two-field form: to the field in focus.
pub fn edit_field(focus: LoginFocus) -> (r: TopologyEffect)
    ensures
        r == spec_edit_field(focus),
{
    match focus {
        LoginFocus::FieldOne => TopologyEffect::EditOne,
        LoginFocus::FieldTwo => TopologyEffect::EditTwo,
        _ => TopologyEffect::Nothing,
    }
}

/// The topology view as a reset form leaves it, in the given mode.
pub open spec fn spec_reset_form(state: TopologyState, mode: PluginMgmtMode) -> TopologyState {
    TopologyState {
        mode,
        step: PluginMgmtFormStep::SelectParent,
        focus: LoginFocus::Username,
        ..state
    }
}

/// The topology view as a reset form leaves it, in the given mode.
pub fn reset_form(state: TopologyState, mode: PluginMgmtMode) -> (r: TopologyState)
    ensures
        r == spec_reset_form(state, mode),
{
    TopologyState {
        mode,
        step: PluginMgmtFormStep::SelectParent,
        focus: LoginFocus::Username,
        ..state
    }
}

/// The topology view after a key on the outline. Without a selection, moving up
/// selects the first row only where `up_selects` says so.
pub open spec fn spec_tree_key(state: TopologyState, key: Key, rows: usize, row: Option<RowInfo>, up_selects: bool) -> TopologyStep {
    match key {
        Key::Up => TopologyStep {
            state: TopologyState {
                selected: if state.selected.is_some() || up_selects {
                    spec_select_up(state.selected, rows)
                } else {
                    None
                },
                ..state
            },
            effect: TopologyEffect::Nothing,
            consumed: true,
        },
        Key::Down => TopologyStep {
            state: TopologyState { selected: spec_select_down(state.selected, rows), ..state },
            effect: TopologyEffect::Nothing,
            consumed: true,
        },
        Key::Tab => TopologyStep {
            state,
            effect: match row {
                Some(r) => if r.expandable {
                    TopologyEffect::Expand
                } else {
                    TopologyEffect::Nothing
                },
                None => TopologyEffect::Nothing,
            },
            consumed: true,
        },
        Key::BackTab => TopologyStep {
            state,
            effect: match row {
                Some(r) => if r.expandable {
                    TopologyEffect::Collapse
                } else {
                    TopologyEffect::Nothing
                },
                None => TopologyEffect::Nothing,
            },
            consumed: true,
        },
        _ => TopologyStep { state, effect: TopologyEffect::Nothing, consumed: false },
    }
}

/// The topology view after a key on the outline. Without a selection, moving up
/// selects the first row only where `up_selects` says so.
pub fn tree_key(state: TopologyState, key: Key, rows: usize, row: Option<RowInfo>, up_selects: bool) -> (r: TopologyStep)
    ensures
        r == spec_tree_key(state, key, rows, row, up_selects),
{
    match key {
        Key::Up => TopologyStep {
            state: TopologyState {
                selected: if state.selected.is_some() || up_selects {
                    select_up(state.selected, rows)
                } else {
                    None
                },
                ..state
            },
            effect: TopologyEffect::Nothing,
            consumed: true,
        },
        Key::Down => TopologyStep {
            state: TopologyState { selected: select_down(state.selected, rows), ..state },
            effect: TopologyEffect::Nothing,
            consumed: true,
        },
        Key::Tab => TopologyStep {
            state,
            effect: match row {
                Some(r) => if r.expandable {
                    TopologyEffect::Expand
                } else {
                    TopologyEffect::Nothing
                },
                None => TopologyEffect::Nothing,
            },
            consumed: true,
        },
        Key::BackTab => TopologyStep {
            state,
            effect: match row {
                Some(r) => if r.expandable {
                    TopologyEffect::Collapse
                } else {
                    TopologyEffect::Nothing
                },
                None => TopologyEffect::Nothing,
            },
            consumed: true,
        },
        _ => TopologyStep { state, effect: TopologyEffect::Nothing, consumed: false },
    }
}

/// The topology view after a key in a form that adds a node below a parent. The
/// parent has to have `parent_components` components: one for a new subsection,
/// two for a new entity.
pub open spec fn spec_child_key(state: TopologyState, key: Key, rows: usize, row: Option<RowInfo>, filled: Filled, parent_components: usize) -> TopologyStep {
    match state.step {
        PluginMgmtFormStep::SelectParent => match key {
            Key::Enter => match row {
                Some(r) => if r.components == parent_components {
                    TopologyStep {
                        state: TopologyState {
                            step: PluginMgmtFormStep::EnterDetails,
                            focus: LoginFocus::FieldOne,
                            ..state
                        },
                        effect: TopologyEffect::ChooseParent,
                        consumed: true,
                    }
                } else {
                    TopologyStep { state, effect: TopologyEffect::Nothing, consumed: true }
                },
                None => TopologyStep { state, effect: TopologyEffect::Nothing, consumed: true },
            },
            _ => spec_tree_key(state, key, rows, row, false),
        },
        PluginMgmtFormStep::EnterDetails => match key {
            Key::Backspace => TopologyStep {
                state: TopologyState { step: PluginMgmtFormStep::SelectParent, ..state },
                effect: TopologyEffect::Nothing,
                consumed: true,
            },
            Key::Tab => TopologyStep {
                state: TopologyState { focus: state.focus.spec_toggle_field(), ..state },
                effect: TopologyEffect::Nothing,
                consumed: true,
            },
            Key::Enter => if filled.parent && filled.one && filled.two {
                TopologyStep {
                    state: spec_reset_form(state, PluginMgmtMode::View),
                    effect: if parent_components == 1 {
                        TopologyEffect::SubmitSubsection
                    } else {
                        TopologyEffect::SubmitEntity
                    },
                    consumed: true,
                }
            } else {
                TopologyStep { state, effect: TopologyEffect::Nothing, consumed: true }
            },
            _ => TopologyStep { state, effect: spec_edit_field(state.focus), consumed: true },
        },
    }
}

/// The topology view after a key in a form that adds a node below a parent. The
/// parent has to have `parent_components` components: one for a new subsection,
/// two for a new entity.
pub fn child_key(state: TopologyState, key: Key, rows: usize, row: Option<RowInfo>, filled: Filled, parent_components: usize) -> (r: TopologyStep)
    ensures
        r == spec_child_key(state, key, rows, row, filled, parent_components),
{
    match state.step {
        PluginMgmtFormStep::SelectParent => match key {
            Key::Enter => match row {
                Some(r) => if r.components == parent_components {
                    TopologyStep {
                        state: TopologyState {
                            step: PluginMgmtFormStep::EnterDetails,
                            focus: LoginFocus::FieldOne,
                            ..state
                        },
                        effect: TopologyEffect::ChooseParent,
                        consumed: true,
                    }
                } else {
                    TopologyStep { state, effect: TopologyEffect::Nothing, consumed: true }
                },
                None => TopologyStep { state, effect: TopologyEffect::Nothing, consumed: true },
            },
            _ => tree_key(state, key, rows, row, false),
        },
        PluginMgmtFormStep::EnterDetails => match key {
            Key::Backspace => TopologyStep {
                state: TopologyState { step: PluginMgmtFormStep::SelectParent, ..state },
                effect: TopologyEffect::Nothing,
                consumed: true,
            },
            Key::Tab => TopologyStep {
                state: TopologyState { focus: state.focus.toggle_field(), ..state },
                effect: TopologyEffect::Nothing,
                consumed: true,
            },
            Key::Enter => if filled.parent && filled.one && filled.two {
                TopologyStep {
                    state: reset_form(state, PluginMgmtMode::View),
                    effect: if parent_components == 1 {
                        TopologyEffect::SubmitSubsection
                    } else {
                        TopologyEffect::SubmitEntity
                    },
                    consumed: true,
                }
            } else {
                TopologyStep { state, effect: TopologyEffect::Nothing, consumed: true }
            },
            _ => TopologyStep { state, effect: edit_field(state.focus), consumed: true },
        },
    }
}

/// The topology view after a key. Left and right change the mode and reset the
/// form; the other keys go to the outline or to the form of the mode.
pub open spec fn spec_topology_key(state: TopologyState, key: Key, rows: usize, row: Option<RowInfo>, filled: Filled) -> TopologyStep {
    match key {
        Key::Right => TopologyStep {
            state: spec_reset_form(state, state.mode.spec_next()),
            effect: TopologyEffect::ResetForm,
            consumed: true,
        },
        Key::Left => TopologyStep {
            state: spec_reset_form(state, state.mode.spec_prev()),
            effect: TopologyEffect::ResetForm,
            consumed: true,
        },
        _ => match state.mode {
            PluginMgmtMode::AddPlugin => match key {
                Key::Tab => TopologyStep {
                    state: TopologyState { focus: state.focus.spec_toggle_field(), ..state },
                    effect: TopologyEffect::Nothing,
                    consumed: true,
                },
                Key::Enter => if filled.one && filled.two {
                    TopologyStep {
                        state: spec_reset_form(state, PluginMgmtMode::View),
                        effect: TopologyEffect::SubmitPlugin,
                        consumed: true,
                    }
                } else {
                    TopologyStep { state, effect: TopologyEffect::Nothing, consumed: true }
                },
                _ => TopologyStep { state, effect: spec_edit_field(state.focus), consumed: true },
            },
            PluginMgmtMode::AddSubsection => spec_child_key(state, key, rows, row, filled, 1),
            PluginMgmtMode::AddEntity => spec_child_key(state, key, rows, row, filled, 2),
            _ => match key {
                Key::Delete => TopologyStep {
                    state,
                    effect: if state.mode == PluginMgmtMode::Remove && row.is_some() {
                        TopologyEffect::StageDeletion
                    } else {
                        TopologyEffect::Nothing
                    },
                    consumed: true,
                },
                _ => spec_tree_key(state, key, rows, row, true),
            },
        },
    }
}

/// The topology view after a key. Left and right change the mode and reset the
/// form; the other keys go to the outline or to the form of the mode.
pub fn topology_key(state: TopologyState, key: Key, rows: usize, row: Option<RowInfo>, filled: Filled) -> (r: TopologyStep)
    ensures
        r == spec_topology_key(state, key, rows, row, filled),
{
    match key {
        Key::Right => TopologyStep {
            state: reset_form(state, state.mode.next()),
            effect: TopologyEffect::ResetForm,
            consumed: true,
        },
        Key::Left => TopologyStep {
            state: reset_form(state, state.mode.prev()),
            effect: TopologyEffect::ResetForm,
            consumed: true,
        },
        _ => match state.mode {
            PluginMgmtMode::AddPlugin => match key {
                Key::Tab => TopologyStep {
                    state: TopologyState { focus: state.focus.toggle_field(), ..state },
                    effect: TopologyEffect::Nothing,
                    consumed: true,
                },
                Key::Enter => if filled.one && filled.two {
                    TopologyStep {
                        state: reset_form(state, PluginMgmtMode::View),
                        effect: TopologyEffect::SubmitPlugin,
                        consumed: true,
                    }
                } else {
                    TopologyStep { state, effect: TopologyEffect::Nothing, consumed: true }
                },
                _ => TopologyStep { state, effect: edit_field(state.focus), consumed: true },
            },
            PluginMgmtMode::AddSubsection => child_key(state, key, rows, row, filled, 1),
            PluginMgmtMode::AddEntity => child_key(state, key, rows, row, filled, 2),
            _ => match key {
                Key::Delete => TopologyStep {
                    state,
                    effect: if state.mode == PluginMgmtMode::Remove && row.is_some() {
                        TopologyEffect::StageDeletion
                    } else {
                        TopologyEffect::Nothing
                    },
                    consumed: true,
                },
                _ => tree_key(state, key, rows, row, true),
            },
        },
    }
}

/// A node is put up for deletion only in the remove mode with a row
/// selected, and a node is added only when every text that it needs is
/// filled in; a child moreover needs a chosen parent.
pub proof fn lemma_topology_effects(state: TopologyState, key: Key, rows: usize, row: Option<RowInfo>, filled: Filled)
    ensures
        spec_topology_key(state, key, rows, row, filled).effect == TopologyEffect::StageDeletion
            ==> state.mode == PluginMgmtMode::Remove && row is Some && key == Key::Delete,
        spec_topology_key(state, key, rows, row, filled).effect == TopologyEffect::SubmitPlugin
            ==> state.mode == PluginMgmtMode::AddPlugin && filled.one && filled.two,
        spec_topology_key(state, key, rows, row, filled).effect == TopologyEffect::SubmitSubsection
            ==> state.mode == PluginMgmtMode::AddSubsection && filled.one && filled.two
            && filled.parent,
        spec_topology_key(state, key, rows, row, filled).effect == TopologyEffect::SubmitEntity
            ==> state.mode == PluginMgmtMode::AddEntity && filled.one && filled.two && filled.parent,
        spec_topology_key(state, key, rows, row, filled).effect == TopologyEffect::ChooseParent
            ==> row is Some && row.unwrap().components == (if state.mode
            == PluginMgmtMode::AddSubsection {
            1usize
        } else {
            2usize
        }),
{
}

/// The state of the dictionary editor.
#[derive(Clone, Copy, Debug, PartialEq, Eq)]
pub struct DictionaryState {
    pub mode: DictionaryEditorMode,
    pub column: DictionaryColumn,
    /// The selected plugin group.
    pub plugin: Option<usize>,
    /// The selected status code.
    pub status: Option<usize>,
    /// The selected command template.
    pub command: Option<usize>,
    pub focus: CommandFormFocus,
    pub priority: u8,
    pub has_level: bool,
    pub level: u8,
}

/// What the dictionary editor is told of the dictionary: how many plugin
/// groups there are, whether one is chosen, and how many status codes and
/// command templates the chosen one has, if it has a vocabulary.
#[derive(Clone, Copy, Debug, PartialEq, Eq)]
pub struct DictionaryCounts {
    pub plugins: usize,
    pub chosen: bool,
    pub statuses: Option<usize>,
    pub commands: Option<usize>,
}

/// What the surrounding program has to do after a key in the dictionary
/// editor.
#[derive(Clone, Copy, Debug, PartialEq, Eq)]
pub enum DictionaryEffect {
    Nothing,
    /// Add the status code that the first field holds, then empty it.
    SubmitStatus,
    /// Add the command template that the form describes, then empty it.
    SubmitCommand,
    /// Empty the first field.
    ResetStatusForm,
    /// Empty both fields.
    ResetCommandForm,
    /// The key goes to the first field.
    EditOne,
    /// The key goes to the second field.
    EditTwo,
    /// Ask for the code that confirms the deletion of the status code of
    /// that number.
    StageStatusDeletion(usize),
    /// Ask for the code that confirms the deletion of the command template
    /// of that number.
    StageCommandDeletion(usize),
}

/// The dictionary editor after a key.
#[derive(Clone, Copy, Debug, PartialEq, Eq)]
pub struct DictionaryStep {
    pub state: DictionaryState,
    pub effect: DictionaryEffect,
    pub consumed: bool,
}

/// The editor with an empty command form: the focus on the name, the lowest
/// priority, no level.
pub open spec fn spec_clear_command_form(state: DictionaryState) -> DictionaryState {
    DictionaryState {
        focus: CommandFormFocus::Name,
        priority: 0,
        has_level: false,
        level: 1,
        ..state
    }
}

/// The editor with an empty command form: the focus on the name, the lowest
/// priority, no level.
pub fn clear_command_form(state: DictionaryState) -> (r: DictionaryState)
    ensures
        r == spec_clear_command_form(state),
{
    DictionaryState {
        focus: CommandFormFocus::Name,
        priority: 0,
        has_level: false,
        level: 1,
        ..state
    }
}

/// The selection after moving down in a column: from the selected item, or from
/// the first if none is selected, one down but not past the last.
pub open spec fn spec_column_down(selected: Option<usize>, count: usize) -> Option<usize> {
    if count == 0 {
        selected
    } else {
        match selected {
            Some(s) => spec_select_down(Some(s), count),
            None => spec_select_down(Some(0usize), count),
        }
    }
}

/// The selection after moving down in a column: from the selected item, or from
/// the first if none is selected, one down but not past the last.
pub fn column_down(selected: Option<usize>, count: usize) -> (r: Option<usize>)
    ensures
        r == spec_column_down(selected, count),
{
    if count == 0 {
        selected
    } else {
        match selected {
            Some(s) => select_down(Some(s), count),
            None => select_down(Some(0usize), count),
        }
    }
}

/// The selection after moving up in a column: from the selected item, or from
/// the first if none is selected, one up but not past the first.
pub open spec fn spec_column_up(selected: Option<usize>) -> Option<usize> {
    match selected {
        Some(s) => Some(if s == 0 { 0usize } else { (s - 1) as usize }),
        None => Some(0usize),
    }
}

/// The selection after moving up in a column: from the selected item, or from
/// the first if none is selected, one up but not past the first.
pub fn column_up(selected: Option<usize>) -> (r: Option<usize>)
    ensures
        r == spec_column_up(selected),
{
    match selected {
        Some(s) => Some(if s == 0 { 0usize } else { (s - 1) as usize }),
        None => Some(0usize),
    }
}

/// The selection in a column that has just got the focus: what was selected, or
/// the first item.
pub open spec fn spec_or_first(selected: Option<usize>) -> Option<usize> {
    match selected {
        Some(s) => Some(s),
        None => Some(0usize),
    }
}

/// The selection in a column that has just got the focus: what was selected, or
/// the first item.
pub fn or_first(selected: Option<usize>) -> (r: Option<usize>)
    ensures
        r == spec_or_first(selected),
{
    match selected {
        Some(s) => Some(s),
        None => Some(0usize),
    }
}

/// The editor after a key in the form that adds a status code.
pub open spec fn spec_status_form_key(state: DictionaryState, key: Key, counts: DictionaryCounts, filled: Filled) -> DictionaryStep {
    if !counts.chosen {
        DictionaryStep {
            state: DictionaryState { mode: DictionaryEditorMode::View, ..state },
            effect: DictionaryEffect::Nothing,
            consumed: true,
        }
    } else {
        match key {
            Key::Enter => if filled.one {
                DictionaryStep {
                    state: DictionaryState { mode: DictionaryEditorMode::View, ..state },
                    effect: DictionaryEffect::SubmitStatus,
                    consumed: true,
                }
            } else {
                DictionaryStep { state, effect: DictionaryEffect::Nothing, consumed: true }
            },
            Key::End => DictionaryStep {
                state: DictionaryState { mode: DictionaryEditorMode::View, ..state },
                effect: DictionaryEffect::ResetStatusForm,
                consumed: true,
            },
            _ => DictionaryStep { state, effect: DictionaryEffect::EditOne, consumed: true },
        }
    }
}

/// The editor after a key in the form that adds a status code.
pub fn status_form_key(state: DictionaryState, key: Key, counts: DictionaryCounts, filled: Filled) -> (r: DictionaryStep)
    ensures
        r == spec_status_form_key(state, key, counts, filled),
{
    if !counts.chosen {
        DictionaryStep {
            state: DictionaryState { mode: DictionaryEditorMode::View, ..state },
            effect: DictionaryEffect::Nothing,
            consumed: true,
        }
    } else {
        match key {
            Key::Enter => if filled.one {
                DictionaryStep {
                    state: DictionaryState { mode: DictionaryEditorMode::View, ..state },
                    effect: DictionaryEffect::SubmitStatus,
                    consumed: true,
                }
            } else {
                DictionaryStep { state, effect: DictionaryEffect::Nothing, consumed: true }
            },
            Key::End => DictionaryStep {
                state: DictionaryState { mode: DictionaryEditorMode::View, ..state },
                effect: DictionaryEffect::ResetStatusForm,
                consumed: true,
            },
            _ => DictionaryStep { state, effect: DictionaryEffect::EditOne, consumed: true },
        }
    }
}

/// The editor after a key that goes to the field of the command form in focus:
/// text goes to the name or the key, left and right step through priorities and
/// levels, and the space bar ticks the level box.
pub open spec fn spec_command_field_key(state: DictionaryState, key: Key) -> DictionaryStep {
    match state.focus {
        CommandFormFocus::Name => DictionaryStep {
            state,
            effect: DictionaryEffect::EditOne,
            consumed: true,
        },
        CommandFormFocus::Key => DictionaryStep {
            state,
            effect: DictionaryEffect::EditTwo,
            consumed: true,
        },
        CommandFormFocus::Priority => DictionaryStep {
            state: match key {
                Key::Right => DictionaryState {
                    priority: spec_cycle_priority(state.priority, true),
                    ..state
                },
                Key::Left => DictionaryState {
                    priority: spec_cycle_priority(state.priority, false),
                    ..state
                },
                _ => state,
            },
            effect: DictionaryEffect::Nothing,
            consumed: true,
        },
        CommandFormFocus::HasLevel => DictionaryStep {
            state: match key {
                Key::Char(c) => if c == ' ' {
                    DictionaryState { has_level: !state.has_level, ..state }
                } else {
                    state
                },
                _ => state,
            },
            effect: DictionaryEffect::Nothing,
            consumed: true,
        },
        CommandFormFocus::Level => DictionaryStep {
            state: if state.has_level {
                match key {
                    Key::Right => DictionaryState {
                        level: spec_cycle_level(state.level, true),
                        ..state
                    },
                    Key::Left => DictionaryState {
                        level: spec_cycle_level(state.level, false),
                        ..state
                    },
                    _ => state,
                }
            } else {
                state
            },
            effect: DictionaryEffect::Nothing,
            consumed: true,
        },
    }
}

/// The editor after a key that goes to the field of the command form in focus:
/// text goes to the name or the key, left and right step through priorities and
/// levels, and the space bar ticks the level box.
pub fn command_field_key(state: DictionaryState, key: Key) -> (r: DictionaryStep)
    ensures
        r == spec_command_field_key(state, key),
{
    match state.focus {
        CommandFormFocus::Name => DictionaryStep {
            state,
            effect: DictionaryEffect::EditOne,
            consumed: true,
        },
        CommandFormFocus::Key => DictionaryStep {
            state,
            effect: DictionaryEffect::EditTwo,
            consumed: true,
        },
        CommandFormFocus::Priority => DictionaryStep {
            state: match key {
                Key::Right => DictionaryState {
                    priority: cycle_priority(state.priority, true),
                    ..state
                },
                Key::Left => DictionaryState {
                    priority: cycle_priority(state.priority, false),
                    ..state
                },
                _ => state,
            },
            effect: DictionaryEffect::Nothing,
            consumed: true,
        },
        CommandFormFocus::HasLevel => DictionaryStep {
            state: match key {
                Key::Char(c) => if c == ' ' {
                    DictionaryState { has_level: !state.has_level, ..state }
                } else {
                    state
                },
                _ => state,
            },
            effect: DictionaryEffect::Nothing,
            consumed: true,
        },
        CommandFormFocus::Level => DictionaryStep {
            state: if state.has_level {
                match key {
                    Key::Right => DictionaryState {
                        level: cycle_level(state.level, true),
                        ..state
                    },
                    Key::Left => DictionaryState {
                        level: cycle_level(state.level, false),
                        ..state
                    },
                    _ => state,
                }
            } else {
                state
            },
            effect: DictionaryEffect::Nothing,
            consumed: true,
        },
    }
}

/// The editor after a key in the form that adds a command template.
pub open spec fn spec_command_form_key(state: DictionaryState, key: Key, counts: DictionaryCounts, filled: Filled) -> DictionaryStep {
    if !counts.chosen {
        DictionaryStep {
            state: DictionaryState { mode: DictionaryEditorMode::View, ..state },
            effect: DictionaryEffect::Nothing,
            consumed: true,
        }
    } else {
        match key {
            Key::Enter => if filled.one && filled.two {
                DictionaryStep {
                    state: spec_clear_command_form(
                        DictionaryState { mode: DictionaryEditorMode::View, ..state },
                    ),
                    effect: DictionaryEffect::SubmitCommand,
                    consumed: true,
                }
            } else {
                DictionaryStep { state, effect: DictionaryEffect::Nothing, consumed: true }
            },
            Key::End => DictionaryStep {
                state: spec_clear_command_form(
                    DictionaryState { mode: DictionaryEditorMode::View, ..state },
                ),
                effect: DictionaryEffect::ResetCommandForm,
                consumed: true,
            },
            Key::Tab => DictionaryStep {
                state: DictionaryState { focus: state.focus.spec_next(), ..state },
                effect: DictionaryEffect::Nothing,
                consumed: true,
            },
            Key::BackTab => DictionaryStep {
                state: DictionaryState { focus: state.focus.spec_prev(), ..state },
                effect: DictionaryEffect::Nothing,
                consumed: true,
            },
            _ => spec_command_field_key(state, key),
        }
    }
}

/// The editor after a key in the form that adds a command template.
pub fn command_form_key(state: DictionaryState, key: Key, counts: DictionaryCounts, filled: Filled) -> (r: DictionaryStep)
    ensures
        r == spec_command_form_key(state, key, counts, filled),
{
    if !counts.chosen {
        DictionaryStep {
            state: DictionaryState { mode: DictionaryEditorMode::View, ..state },
            effect: DictionaryEffect::Nothing,
            consumed: true,
        }
    } else {
        match key {
            Key::Enter => if filled.one && filled.two {
                DictionaryStep {
                    state: clear_command_form(
                        DictionaryState { mode: DictionaryEditorMode::View, ..state },
                    ),
                    effect: DictionaryEffect::SubmitCommand,
                    consumed: true,
                }
            } else {
                DictionaryStep { state, effect: DictionaryEffect::Nothing, consumed: true }
            },
            Key::End => DictionaryStep {
                state: clear_command_form(
                    DictionaryState { mode: DictionaryEditorMode::View, ..state },
                ),
                effect: DictionaryEffect::ResetCommandForm,
                consumed: true,
            },
            Key::Tab => DictionaryStep {
                state: DictionaryState { focus: state.focus.next(), ..state },
                effect: DictionaryEffect::Nothing,
                consumed: true,
            },
            Key::BackTab => DictionaryStep {
                state: DictionaryState { focus: state.focus.prev(), ..state },
                effect: DictionaryEffect::Nothing,
                consumed: true,
            },
            _ => command_field_key(state, key),
        }
    }
}

/// The editor after a key on its three columns.
pub open spec fn spec_columns_key(state: DictionaryState, key: Key, counts: DictionaryCounts) -> DictionaryStep {
    match key {
        Key::Tab => DictionaryStep {
            state: match state.column {
                DictionaryColumn::Plugins => DictionaryState {
                    column: DictionaryColumn::StatusCodes,
                    status: spec_or_first(state.status),
                    ..state
                },
                DictionaryColumn::StatusCodes => DictionaryState {
                    column: DictionaryColumn::Commands,
                    command: spec_or_first(state.command),
                    ..state
                },
                DictionaryColumn::Commands => DictionaryState {
                    column: DictionaryColumn::Plugins,
                    ..state
                },
            },
            effect: DictionaryEffect::Nothing,
            consumed: true,
        },
        Key::BackTab => DictionaryStep {
            state: match state.column {
                DictionaryColumn::Plugins => DictionaryState {
                    column: DictionaryColumn::Commands,
                    command: spec_or_first(state.command),
                    ..state
                },
                DictionaryColumn::StatusCodes => DictionaryState {
                    column: DictionaryColumn::Plugins,
                    ..state
                },
                DictionaryColumn::Commands => DictionaryState {
                    column: DictionaryColumn::StatusCodes,
                    status: spec_or_first(state.status),
                    ..state
                },
            },
            effect: DictionaryEffect::Nothing,
            consumed: true,
        },
        Key::Down => DictionaryStep {
            state: match state.column {
                DictionaryColumn::Plugins => DictionaryState {
                    plugin: spec_column_down(state.plugin, counts.plugins),
                    ..state
                },
                DictionaryColumn::StatusCodes => match counts.statuses {
                    Some(n) => DictionaryState { status: spec_column_down(state.status, n), ..state },
                    None => state,
                },
                DictionaryColumn::Commands => match counts.commands {
                    Some(n) => DictionaryState { command: spec_column_down(state.command, n), ..state },
                    None => state,
                },
            },
            effect: DictionaryEffect::Nothing,
            consumed: true,
        },
        Key::Up => DictionaryStep {
            state: match state.column {
                DictionaryColumn::Plugins => DictionaryState {
                    plugin: spec_column_up(state.plugin),
                    ..state
                },
                DictionaryColumn::StatusCodes => DictionaryState {
                    status: spec_column_up(state.status),
                    ..state
                },
                DictionaryColumn::Commands => DictionaryState {
                    command: spec_column_up(state.command),
                    ..state
                },
            },
            effect: DictionaryEffect::Nothing,
            consumed: true,
        },
        Key::Insert => DictionaryStep {
            state: spec_clear_command_form(
                DictionaryState { mode: state.mode.spec_inserting_in(state.column), ..state },
            ),
            effect: DictionaryEffect::ResetCommandForm,
            consumed: true,
        },
        Key::Delete => DictionaryStep {
            state,
            effect: if !counts.chosen {
                DictionaryEffect::Nothing
            } else {
                match state.column {
                    DictionaryColumn::StatusCodes => match (state.status, counts.statuses) {
                        (Some(i), Some(n)) => if i < n {
                            DictionaryEffect::StageStatusDeletion(i)
                        } else {
                            DictionaryEffect::Nothing
                        },
                        _ => DictionaryEffect::Nothing,
                    },
                    DictionaryColumn::Commands => match (state.command, counts.commands) {
                        (Some(i), Some(n)) => if i < n {
                            DictionaryEffect::StageCommandDeletion(i)
                        } else {
                            DictionaryEffect::Nothing
                        },
                        _ => DictionaryEffect::Nothing,
                    },
                    DictionaryColumn::Plugins => DictionaryEffect::Nothing,
                }
            },
            consumed: true,
        },
        _ => DictionaryStep { state, effect: DictionaryEffect::Nothing, consumed: false },
    }
}

/// The editor after a key on its three columns.
pub fn columns_key(state: DictionaryState, key: Key, counts: DictionaryCounts) -> (r: DictionaryStep)
    ensures
        r == spec_columns_key(state, key, counts),
{
    match key {
        Key::Tab => DictionaryStep {
            state: match state.column {
                DictionaryColumn::Plugins => DictionaryState {
                    column: DictionaryColumn::StatusCodes,
                    status: or_first(state.status),
                    ..state
                },
                DictionaryColumn::StatusCodes => DictionaryState {
                    column: DictionaryColumn::Commands,
                    command: or_first(state.command),
                    ..state
                },
                DictionaryColumn::Commands => DictionaryState {
                    column: DictionaryColumn::Plugins,
                    ..state
                },
            },
            effect: DictionaryEffect::Nothing,
            consumed: true,
        },
        Key::BackTab => DictionaryStep {
            state: match state.column {
                DictionaryColumn::Plugins => DictionaryState {
                    column: DictionaryColumn::Commands,
                    command: or_first(state.command),
                    ..state
                },
                DictionaryColumn::StatusCodes => DictionaryState {
                    column: DictionaryColumn::Plugins,
                    ..state
                },
                DictionaryColumn::Commands => DictionaryState {
                    column: DictionaryColumn::StatusCodes,
                    status: or_first(state.status),
                    ..state
                },
            },
            effect: DictionaryEffect::Nothing,
            consumed: true,
        },
        Key::Down => DictionaryStep {
            state: match state.column {
                DictionaryColumn::Plugins => DictionaryState {
                    plugin: column_down(state.plugin, counts.plugins),
                    ..state
                },
                DictionaryColumn::StatusCodes => match counts.statuses {
                    Some(n) => DictionaryState { status: column_down(state.status, n), ..state },
                    None => state,
                },
                DictionaryColumn::Commands => match counts.commands {
                    Some(n) => DictionaryState { command: column_down(state.command, n), ..state },
                    None => state,
                },
            },
            effect: DictionaryEffect::Nothing,
            consumed: true,
        },
        Key::Up => DictionaryStep {
            state: match state.column {
                DictionaryColumn::Plugins => DictionaryState {
                    plugin: column_up(state.plugin),
                    ..state
                },
                DictionaryColumn::StatusCodes => DictionaryState {
                    status: column_up(state.status),
                    ..state
                },
                DictionaryColumn::Commands => DictionaryState {
                    command: column_up(state.command),
                    ..state
                },
            },
            effect: DictionaryEffect::Nothing,
            consumed: true,
        },
        Key::Insert => DictionaryStep {
            state: clear_command_form(
                DictionaryState { mode: state.mode.inserting_in(state.column), ..state },
            ),
            effect: DictionaryEffect::ResetCommandForm,
            consumed: true,
        },
        Key::Delete => DictionaryStep {
            state,
            effect: if !counts.chosen {
                DictionaryEffect::Nothing
            } else {
                match state.column {
                    DictionaryColumn::StatusCodes => match (state.status, counts.statuses) {
                        (Some(i), Some(n)) => if i < n {
                            DictionaryEffect::StageStatusDeletion(i)
                        } else {
                            DictionaryEffect::Nothing
                        },
                        _ => DictionaryEffect::Nothing,
                    },
                    DictionaryColumn::Commands => match (state.command, counts.commands) {
                        (Some(i), Some(n)) => if i < n {
                            DictionaryEffect::StageCommandDeletion(i)
                        } else {
                            DictionaryEffect::Nothing
                        },
                        _ => DictionaryEffect::Nothing,
                    },
                    DictionaryColumn::Plugins => DictionaryEffect::Nothing,
                }
            },
            consumed: true,
        },
        _ => DictionaryStep { state, effect: DictionaryEffect::Nothing, consumed: false },
    }
}

/// The dictionary editor after a key: a key goes to the form that is open, else
/// to the columns.
pub open spec fn spec_dictionary_key(state: DictionaryState, key: Key, counts: DictionaryCounts, filled: Filled) -> DictionaryStep {
    match state.mode {
        DictionaryEditorMode::AddStatus => spec_status_form_key(state, key, counts, filled),
        DictionaryEditorMode::AddCommand => spec_command_form_key(state, key, counts, filled),
        DictionaryEditorMode::View => spec_columns_key(state, key, counts),
    }
}

/// The dictionary editor after a key: a key goes to the form that is open, else
/// to the columns.
pub fn dictionary_key(state: DictionaryState, key: Key, counts: DictionaryCounts, filled: Filled) -> (r: DictionaryStep)
    ensures
        r == spec_dictionary_key(state, key, counts, filled),
{
    match state.mode {
        DictionaryEditorMode::AddStatus => status_form_key(state, key, counts, filled),
        DictionaryEditorMode::AddCommand => command_form_key(state, key, counts, filled),
        DictionaryEditorMode::View => columns_key(state, key, counts),
    }
}

/// Vocabulary is added only from its form, for a chosen plugin group and
/// with every text filled in; an item is put up for deletion only from the
/// columns, for a chosen plugin group, and it is one of the items listed.
pub proof fn lemma_dictionary_effects(state: DictionaryState, key: Key, counts: DictionaryCounts, filled: Filled)
    ensures
        spec_dictionary_key(state, key, counts, filled).effect == DictionaryEffect::SubmitStatus
            ==> state.mode == DictionaryEditorMode::AddStatus && counts.chosen && filled.one,
        spec_dictionary_key(state, key, counts, filled).effect == DictionaryEffect::SubmitCommand
            ==> state.mode == DictionaryEditorMode::AddCommand && counts.chosen && filled.one
            && filled.two,
        match spec_dictionary_key(state, key, counts, filled).effect {
            DictionaryEffect::StageStatusDeletion(i) => state.mode == DictionaryEditorMode::View
                && counts.chosen && state.column == DictionaryColumn::StatusCodes
                && counts.statuses is Some && i < counts.statuses.unwrap(),
            DictionaryEffect::StageCommandDeletion(i) => state.mode == DictionaryEditorMode::View
                && counts.chosen && state.column == DictionaryColumn::Commands
                && counts.commands is Some && i < counts.commands.unwrap(),
            _ => true,
        },
{
}

/// Whatever the keys, a priority that is one of the three stays one of the
/// three, and a level from 1 to 5 stays in that range.
pub proof fn lemma_dictionary_form_in_range(state: DictionaryState, key: Key, counts: DictionaryCounts, filled: Filled)
    requires
        state.priority <= 2,
        1 <= state.level <= 5,
    ensures
        spec_dictionary_key(state, key, counts, filled).state.priority <= 2,
        1 <= spec_dictionary_key(state, key, counts, filled).state.level <= 5,
{
}

/// The state of the log view.
#[derive(Clone, Copy, Debug, PartialEq, Eq)]
pub struct LogViewState {
    pub mode: LogViewerMode,
    /// The selected log file.
    pub file: Option<usize>,
    /// The selected line of the opened log file.
    pub line: Option<usize>,
}

/// What the surrounding program has to do after a key in the log view.
#[derive(Clone, Copy, Debug, PartialEq, Eq)]
pub enum LogViewEffect {
    Nothing,
    /// Read the log file of that number and show its lines.
    OpenFile(usize),
    /// Go back from the opened file to the list of files.
    CloseFile,
}

/// The log view after a key.
#[derive(Clone, Copy, Debug, PartialEq, Eq)]
pub struct LogViewStep {
    pub state: LogViewState,
    pub effect: LogViewEffect,
    pub consumed: bool,
}

/// The log view after a key. `files` is the number of log files listed, `lines`
/// the number of lines of the opened file, 0 if none is open.
pub open spec fn spec_log_view_key(state: LogViewState, key: Key, files: usize, lines: usize) -> LogViewStep {
    match key {
        Key::Right => LogViewStep {
            state: LogViewState { mode: LogViewerMode::Browser, ..state },
            effect: LogViewEffect::Nothing,
            consumed: true,
        },
        Key::Left => LogViewStep {
            state: LogViewState { mode: LogViewerMode::Live, ..state },
            effect: LogViewEffect::Nothing,
            consumed: true,
        },
        _ => if state.mode == LogViewerMode::Live {
            LogViewStep { state, effect: LogViewEffect::Nothing, consumed: false }
        } else if lines > 0 {
            match key {
                Key::Up => LogViewStep {
                    state: LogViewState { line: spec_select_up(state.line, lines), ..state },
                    effect: LogViewEffect::Nothing,
                    consumed: true,
                },
                Key::Down => LogViewStep {
                    state: LogViewState { line: spec_select_down(state.line, lines), ..state },
                    effect: LogViewEffect::Nothing,
                    consumed: true,
                },
                Key::Backspace => LogViewStep {
                    state: LogViewState { line: None, ..state },
                    effect: LogViewEffect::CloseFile,
                    consumed: true,
                },
                Key::Esc => LogViewStep {
                    state: LogViewState { line: None, ..state },
                    effect: LogViewEffect::CloseFile,
                    consumed: true,
                },
                _ => LogViewStep { state, effect: LogViewEffect::Nothing, consumed: false },
            }
        } else {
            match key {
                Key::Up => LogViewStep {
                    state: LogViewState { file: spec_select_up(state.file, files), ..state },
                    effect: LogViewEffect::Nothing,
                    consumed: true,
                },
                Key::Down => LogViewStep {
                    state: LogViewState { file: spec_select_down(state.file, files), ..state },
                    effect: LogViewEffect::Nothing,
                    consumed: true,
                },
                Key::Enter => LogViewStep {
                    state,
                    effect: match state.file {
                        Some(s) => if s < files {
                            LogViewEffect::OpenFile(s)
                        } else {
                            LogViewEffect::Nothing
                        },
                        None => LogViewEffect::Nothing,
                    },
                    consumed: true,
                },
                _ => LogViewStep { state, effect: LogViewEffect::Nothing, consumed: false },
            }
        },
    }
}

/// The log view after a key. `files` is the number of log files listed, `lines`
/// the number of lines of the opened file, 0 if none is open.
pub fn log_view_key(state: LogViewState, key: Key, files: usize, lines: usize) -> (r: LogViewStep)
    ensures
        r == spec_log_view_key(state, key, files, lines),
{
    match key {
        Key::Right => LogViewStep {
            state: LogViewState { mode: LogViewerMode::Browser, ..state },
            effect: LogViewEffect::Nothing,
            consumed: true,
        },
        Key::Left => LogViewStep {
            state: LogViewState { mode: LogViewerMode::Live, ..state },
            effect: LogViewEffect::Nothing,
            consumed: true,
        },
        _ => if state.mode == LogViewerMode::Live {
            LogViewStep { state, effect: LogViewEffect::Nothing, consumed: false }
        } else if lines > 0 {
            match key {
                Key::Up => LogViewStep {
                    state: LogViewState { line: select_up(state.line, lines), ..state },
                    effect: LogViewEffect::Nothing,
                    consumed: true,
                },
                Key::Down => LogViewStep {
                    state: LogViewState { line: select_down(state.line, lines), ..state },
                    effect: LogViewEffect::Nothing,
                    consumed: true,
                },
                Key::Backspace => LogViewStep {
                    state: LogViewState { line: None, ..state },
                    effect: LogViewEffect::CloseFile,
                    consumed: true,
                },
                Key::Esc => LogViewStep {
                    state: LogViewState { line: None, ..state },
                    effect: LogViewEffect::CloseFile,
                    consumed: true,
                },
                _ => LogViewStep { state, effect: LogViewEffect::Nothing, consumed: false },
            }
        } else {
            match key {
                Key::Up => LogViewStep {
                    state: LogViewState { file: select_up(state.file, files), ..state },
                    effect: LogViewEffect::Nothing,
                    consumed: true,
                },
                Key::Down => LogViewStep {
                    state: LogViewState { file: select_down(state.file, files), ..state },
                    effect: LogViewEffect::Nothing,
                    consumed: true,
                },
                Key::Enter => LogViewStep {
                    state,
                    effect: match state.file {
                        Some(s) => if s < files {
                            LogViewEffect::OpenFile(s)
                        } else {
                            LogViewEffect::Nothing
                        },
                        None => LogViewEffect::Nothing,
                    },
                    consumed: true,
                },
                _ => LogViewStep { state, effect: LogViewEffect::Nothing, consumed: false },
            }
        },
    }
}

/// A log file is opened only from the list of files, and it is one of the
/// files listed.
pub proof fn lemma_log_view_opens_listed_files(state: LogViewState, key: Key, files: usize, lines: usize)
    ensures
        match spec_log_view_key(state, key, files, lines).effect {
            LogViewEffect::OpenFile(s) => s < files && lines == 0 && state.mode
                == LogViewerMode::Browser,
            _ => true,
        },
{
}

} // verus!
