//! The states of the administrator console: which screen shows, which field
//! has the focus, which step a form is at, and the action that waits for its
//! confirmation code. The console feeds key presses in and draws what these
//! states say.

use vstd::prelude::*;
use crate::directives::Rule;

verus! {

/// The top-level screen.
#[derive(Clone, Copy, Debug, PartialEq, Eq, Structural)]
pub enum AppMode {
    SplashScreen,
    Login,
    Authenticated,
}

/// The field that takes key presses in a two-field form.
#[derive(Clone, Copy, Debug, PartialEq, Eq, Structural)]
pub enum LoginFocus {
    Username,
    Password,
    FieldOne,
    FieldTwo,
}

/// The view that an authenticated administrator looks at.
#[derive(Clone, Copy, Debug, PartialEq, Eq, Structural)]
pub enum AuthenticatedMode {
    PluginView,
    LogView,
    DirectiveView,
    PluginMgmtView,
    DictionaryEditorView,
}

/// What the directive view does.
#[derive(Clone, Copy, Debug, PartialEq, Eq, Structural)]
pub enum DirectiveMode {
    View,
    Add,
    Remove,
}

/// What the topology view does.
#[derive(Clone, Copy, Debug, PartialEq, Eq, Structural)]
pub enum PluginMgmtMode {
    View,
    AddPlugin,
    AddSubsection,
    AddEntity,
    Remove,
}

/// The step of the form that authors a directive.
#[derive(Clone, Copy, Debug, PartialEq, Eq, Structural)]
pub enum DirectiveFormStep {
    SelectTarget,
    SelectStatus,
    SelectActionTarget,
    SelectCommand,
    Confirm,
}

/// The step of a form that adds a topology node.
#[derive(Clone, Copy, Debug, PartialEq, Eq, Structural)]
pub enum PluginMgmtFormStep {
    SelectParent,
    EnterDetails,
}

/// What the log view shows.
#[derive(Clone, Copy, Debug, PartialEq, Eq, Structural)]
pub enum LogViewerMode {
    Live,
    Browser,
}

/// The column of the dictionary editor that has the focus.
#[derive(Clone, Copy, Debug, PartialEq, Eq, Structural)]
pub enum DictionaryColumn {
    Plugins,
    StatusCodes,
    Commands,
}

/// What the dictionary editor does.
#[derive(Clone, Copy, Debug, PartialEq, Eq, Structural)]
pub enum DictionaryEditorMode {
    View,
    AddStatus,
    AddCommand,
}

/// The field of the command form that has the focus.
#[derive(Clone, Copy, Debug, PartialEq, Eq, Structural)]
pub enum CommandFormFocus {
    Name,
    Key,
    Priority,
    HasLevel,
    Level,
}

impl AuthenticatedMode {
    /// The view that a digit key leads to: `1` to `5` in the order of the
    /// views; other keys lead nowhere.
    pub open spec fn spec_from_key(key: char) -> Option<Self> {
        if key == '1' {
            Some(AuthenticatedMode::PluginView)
        } else if key == '2' {
            Some(AuthenticatedMode::LogView)
        } else if key == '3' {
            Some(AuthenticatedMode::DirectiveView)
        } else if key == '4' {
            Some(AuthenticatedMode::PluginMgmtView)
        } else if key == '5' {
            Some(AuthenticatedMode::DictionaryEditorView)
        } else {
            None
        }
    }

    /// The view that a digit key leads to: `1` to `5` in the order of the
    /// views; other keys lead nowhere.
    pub fn from_key(key: char) -> (r: Option<Self>)
        ensures
            r == Self::spec_from_key(key),
    {
        if key == '1' {
            Some(AuthenticatedMode::PluginView)
        } else if key == '2' {
            Some(AuthenticatedMode::LogView)
        } else if key == '3' {
            Some(AuthenticatedMode::DirectiveView)
        } else if key == '4' {
            Some(AuthenticatedMode::PluginMgmtView)
        } else if key == '5' {
            Some(AuthenticatedMode::DictionaryEditorView)
        } else {
            None
        }
    }
}

impl LoginFocus {
    /// The focus after a tabulator on the login screen: username and password
    /// change places, anything else stays.
    pub open spec fn spec_toggle_login(self) -> Self {
        match self {
            LoginFocus::Username => LoginFocus::Password,
            LoginFocus::Password => LoginFocus::Username,
            other => other,
        }
    }

    /// The focus after a tabulator on the login screen: username and password
    /// change places, anything else stays.
    pub fn toggle_login(&self) -> (r: Self)
        ensures
            r == self.spec_toggle_login(),
    {
        match *self {
            LoginFocus::Username => LoginFocus::Password,
            LoginFocus::Password => LoginFocus::Username,
            other => other,
        }
    }

    /// The focus after a tabulator in a two-field form: the second field after
    /// the first, the first after anything else.
    pub open spec fn spec_toggle_field(self) -> Self {
        match self {
            LoginFocus::FieldOne => LoginFocus::FieldTwo,
            _ => LoginFocus::FieldOne,
        }
    }

    /// The focus after a tabulator in a two-field form: the second field after
    /// the first, the first after anything else.
    pub fn toggle_field(&self) -> (r: Self)
        ensures
            r == self.spec_toggle_field(),
    {
        match *self {
            LoginFocus::FieldOne => LoginFocus::FieldTwo,
            _ => LoginFocus::FieldOne,
        }
    }
}

impl DictionaryEditorMode {
    /// The mode after asking to insert in `column`: a status code is added in
    /// the status column, a command in the command column, and in the plugin
    /// column the mode stays.
    pub open spec fn spec_inserting_in(self, column: DictionaryColumn) -> Self {
        match column {
            DictionaryColumn::StatusCodes => DictionaryEditorMode::AddStatus,
            DictionaryColumn::Commands => DictionaryEditorMode::AddCommand,
            DictionaryColumn::Plugins => self,
        }
    }

    /// The mode after asking to insert in `column`: a status code is added in
    /// the status column, a command in the command column, and in the plugin
    /// column the mode stays.
    pub fn inserting_in(&self, column: DictionaryColumn) -> (r: Self)
        ensures
            r == self.spec_inserting_in(column),
    {
        match column {
            DictionaryColumn::StatusCodes => DictionaryEditorMode::AddStatus,
            DictionaryColumn::Commands => DictionaryEditorMode::AddCommand,
            DictionaryColumn::Plugins => *self,
        }
    }
}

impl CommandFormFocus {
    /// The field after this one; the first follows the last.
    pub open spec fn spec_next(self) -> Self {
        match self {
            CommandFormFocus::Name => CommandFormFocus::Key,
            CommandFormFocus::Key => CommandFormFocus::Priority,
            CommandFormFocus::Priority => CommandFormFocus::HasLevel,
            CommandFormFocus::HasLevel => CommandFormFocus::Level,
            CommandFormFocus::Level => CommandFormFocus::Name,
        }
    }

    /// The field after this one; the first follows the last.
    pub fn next(&self) -> (r: Self)
        ensures
            r == self.spec_next(),
    {
        match *self {
            CommandFormFocus::Name => CommandFormFocus::Key,
            CommandFormFocus::Key => CommandFormFocus::Priority,
            CommandFormFocus::Priority => CommandFormFocus::HasLevel,
            CommandFormFocus::HasLevel => CommandFormFocus::Level,
            CommandFormFocus::Level => CommandFormFocus::Name,
        }
    }

    /// The field before this one; the last precedes the first.
    pub open spec fn spec_prev(self) -> Self {
        match self {
            CommandFormFocus::Name => CommandFormFocus::Level,
            CommandFormFocus::Key => CommandFormFocus::Name,
            CommandFormFocus::Priority => CommandFormFocus::Key,
            CommandFormFocus::HasLevel => CommandFormFocus::Priority,
            CommandFormFocus::Level => CommandFormFocus::HasLevel,
        }
    }

    /// The field before this one; the last precedes the first.
    pub fn prev(&self) -> (r: Self)
        ensures
            r == self.spec_prev(),
    {
        match *self {
            CommandFormFocus::Name => CommandFormFocus::Level,
            CommandFormFocus::Key => CommandFormFocus::Name,
            CommandFormFocus::Priority => CommandFormFocus::Key,
            CommandFormFocus::HasLevel => CommandFormFocus::Priority,
            CommandFormFocus::Level => CommandFormFocus::HasLevel,
        }
    }
}

impl DirectiveMode {
    /// The mode to the right of this one; the first follows the last.
    pub open spec fn spec_next(self) -> Self {
        match self {
            DirectiveMode::View => DirectiveMode::Add,
            DirectiveMode::Add => DirectiveMode::Remove,
            DirectiveMode::Remove => DirectiveMode::View,
        }
    }

    /// The mode to the right of this one; the first follows the last.
    pub fn next(&self) -> (r: Self)
        ensures
            r == self.spec_next(),
    {
        match *self {
            DirectiveMode::View => DirectiveMode::Add,
            DirectiveMode::Add => DirectiveMode::Remove,
            DirectiveMode::Remove => DirectiveMode::View,
        }
    }

    /// The mode to the left of this one; the last precedes the first.
    pub open spec fn spec_prev(self) -> Self {
        match self {
            DirectiveMode::View => DirectiveMode::Remove,
            DirectiveMode::Add => DirectiveMode::View,
            DirectiveMode::Remove => DirectiveMode::Add,
        }
    }

    /// The mode to the left of this one; the last precedes the first.
    pub fn prev(&self) -> (r: Self)
        ensures
            r == self.spec_prev(),
    {
        match *self {
            DirectiveMode::View => DirectiveMode::Remove,
            DirectiveMode::Add => DirectiveMode::View,
            DirectiveMode::Remove => DirectiveMode::Add,
        }
    }
}

impl PluginMgmtMode {
    /// The mode to the right of this one; the first follows the last.
    pub open spec fn spec_next(self) -> Self {
        match self {
            PluginMgmtMode::View => PluginMgmtMode::AddPlugin,
            PluginMgmtMode::AddPlugin => PluginMgmtMode::AddSubsection,
            PluginMgmtMode::AddSubsection => PluginMgmtMode::AddEntity,
            PluginMgmtMode::AddEntity => PluginMgmtMode::Remove,
            PluginMgmtMode::Remove => PluginMgmtMode::View,
        }
    }

    /// The mode to the right of this one; the first follows the last.
    pub fn next(&self) -> (r: Self)
        ensures
            r == self.spec_next(),
    {
        match *self {
            PluginMgmtMode::View => PluginMgmtMode::AddPlugin,
            PluginMgmtMode::AddPlugin => PluginMgmtMode::AddSubsection,
            PluginMgmtMode::AddSubsection => PluginMgmtMode::AddEntity,
            PluginMgmtMode::AddEntity => PluginMgmtMode::Remove,
            PluginMgmtMode::Remove => PluginMgmtMode::View,
        }
    }

    /// The mode to the left of this one; the last precedes the first.
    pub open spec fn spec_prev(self) -> Self {
        match self {
            PluginMgmtMode::View => PluginMgmtMode::Remove,
            PluginMgmtMode::AddPlugin => PluginMgmtMode::View,
            PluginMgmtMode::AddSubsection => PluginMgmtMode::AddPlugin,
            PluginMgmtMode::AddEntity => PluginMgmtMode::AddSubsection,
            PluginMgmtMode::Remove => PluginMgmtMode::AddEntity,
        }
    }

    /// The mode to the left of this one; the last precedes the first.
    pub fn prev(&self) -> (r: Self)
        ensures
            r == self.spec_prev(),
    {
        match *self {
            PluginMgmtMode::View => PluginMgmtMode::Remove,
            PluginMgmtMode::AddPlugin => PluginMgmtMode::View,
            PluginMgmtMode::AddSubsection => PluginMgmtMode::AddPlugin,
            PluginMgmtMode::AddEntity => PluginMgmtMode::AddSubsection,
            PluginMgmtMode::Remove => PluginMgmtMode::AddEntity,
        }
    }
}

impl DirectiveFormStep {
    /// The step that going back from this one leads to; the first step has
    /// none.
    pub open spec fn spec_back(self) -> Option<Self> {
        match self {
            DirectiveFormStep::SelectTarget => None,
            DirectiveFormStep::SelectStatus => Some(DirectiveFormStep::SelectTarget),
            DirectiveFormStep::SelectActionTarget => Some(DirectiveFormStep::SelectStatus),
            DirectiveFormStep::SelectCommand => Some(DirectiveFormStep::SelectActionTarget),
            DirectiveFormStep::Confirm => Some(DirectiveFormStep::SelectCommand),
        }
    }

    /// The step that going back from this one leads to; the first step has
    /// none.
    pub fn back(&self) -> (r: Option<Self>)
        ensures
            r == self.spec_back(),
    {
        match *self {
            DirectiveFormStep::SelectTarget => None,
            DirectiveFormStep::SelectStatus => Some(DirectiveFormStep::SelectTarget),
            DirectiveFormStep::SelectActionTarget => Some(DirectiveFormStep::SelectStatus),
            DirectiveFormStep::SelectCommand => Some(DirectiveFormStep::SelectActionTarget),
            DirectiveFormStep::Confirm => Some(DirectiveFormStep::SelectCommand),
        }
    }
}

impl DictionaryColumn {
    /// The column to the right of this one; the first follows the last.
    pub open spec fn spec_next(self) -> Self {
        match self {
            DictionaryColumn::Plugins => DictionaryColumn::StatusCodes,
            DictionaryColumn::StatusCodes => DictionaryColumn::Commands,
            DictionaryColumn::Commands => DictionaryColumn::Plugins,
        }
    }

    /// The column to the right of this one; the first follows the last.
    pub fn next(&self) -> (r: Self)
        ensures
            r == self.spec_next(),
    {
        match *self {
            DictionaryColumn::Plugins => DictionaryColumn::StatusCodes,
            DictionaryColumn::StatusCodes => DictionaryColumn::Commands,
            DictionaryColumn::Commands => DictionaryColumn::Plugins,
        }
    }

    /// The column to the left of this one; the last precedes the first.
    pub open spec fn spec_prev(self) -> Self {
        match self {
            DictionaryColumn::Plugins => DictionaryColumn::Commands,
            DictionaryColumn::StatusCodes => DictionaryColumn::Plugins,
            DictionaryColumn::Commands => DictionaryColumn::StatusCodes,
        }
    }

    /// The column to the left of this one; the last precedes the first.
    pub fn prev(&self) -> (r: Self)
        ensures
            r == self.spec_prev(),
    {
        match *self {
            DictionaryColumn::Plugins => DictionaryColumn::Commands,
            DictionaryColumn::StatusCodes => DictionaryColumn::Plugins,
            DictionaryColumn::Commands => DictionaryColumn::StatusCodes,
        }
    }
}

/// The selection after moving up in a list of `len` items: one up from the
/// selected item, not past the first; without a selection, the first item if
/// there is one.
pub open spec fn spec_select_up(selected: Option<usize>, len: usize) -> Option<usize> {
    match selected {
        Some(s) => Some(if s == 0 { 0usize } else { (s - 1) as usize }),
        None => if len > 0 { Some(0usize) } else { None },
    }
}

/// The selection after moving up in a list of `len` items: one up from the
/// selected item, not past the first; without a selection, the first item if
/// there is one.
pub fn select_up(selected: Option<usize>, len: usize) -> (r: Option<usize>)
    ensures
        r == spec_select_up(selected, len),
{
    match selected {
        Some(s) => Some(if s == 0 { 0usize } else { (s - 1) as usize }),
        None => if len > 0 { Some(0usize) } else { None },
    }
}

/// The selection after moving down in a list of `len` items: one down from the
/// selected item, not past the last; without a selection, the first item if
/// there is one.
pub open spec fn spec_select_down(selected: Option<usize>, len: usize) -> Option<usize> {
    match selected {
        Some(s) => Some(if s < len && s + 1 < len { (s + 1) as usize } else { s }),
        None => if len > 0 { Some(0usize) } else { None },
    }
}

/// The selection after moving down in a list of `len` items: one down from the
/// selected item, not past the last; without a selection, the first item if
/// there is one.
pub fn select_down(selected: Option<usize>, len: usize) -> (r: Option<usize>)
    ensures
        r == spec_select_down(selected, len),
{
    match selected {
        Some(s) => Some(if s < len && s + 1 < len { (s + 1) as usize } else { s }),
        None => if len > 0 { Some(0usize) } else { None },
    }
}

/// The priority choice after stepping right (`forward`) or left among the three
/// priorities, which are numbered 0 to 2.
pub open spec fn spec_cycle_priority(choice: u8, forward: bool) -> u8 {
    if forward {
        if choice >= 2 { 0u8 } else { (choice + 1) as u8 }
    } else {
        if choice == 0 || choice > 2 { 2u8 } else { (choice - 1) as u8 }
    }
}

/// The priority choice after stepping right (`forward`) or left among the three
/// priorities, which are numbered 0 to 2.
pub fn cycle_priority(choice: u8, forward: bool) -> (r: u8)
    ensures
        r == spec_cycle_priority(choice, forward),
{
    if forward {
        if choice >= 2 { 0u8 } else { (choice + 1) as u8 }
    } else {
        if choice == 0 || choice > 2 { 2u8 } else { (choice - 1) as u8 }
    }
}

/// The level after stepping right (`forward`) or left among the levels 1 to 5;
/// 1 follows 5.
pub open spec fn spec_cycle_level(level: u8, forward: bool) -> u8 {
    if forward {
        if level >= 5 || level == 0 { 1u8 } else { (level + 1) as u8 }
    } else {
        if level <= 1 || level > 5 { 5u8 } else { (level - 1) as u8 }
    }
}

/// The level after stepping right (`forward`) or left among the levels 1 to 5;
/// 1 follows 5.
pub fn cycle_level(level: u8, forward: bool) -> (r: u8)
    ensures
        r == spec_cycle_level(level, forward),
{
    if forward {
        if level >= 5 || level == 0 { 1u8 } else { (level + 1) as u8 }
    } else {
        if level <= 1 || level > 5 { 5u8 } else { (level - 1) as u8 }
    }
}

/// Stepping through the fields of the command form and back leads to where
/// one was, and five steps lead round.
pub proof fn lemma_focus_goes_round(f: CommandFormFocus)
    ensures
        f.spec_next().spec_prev() == f,
        f.spec_prev().spec_next() == f,
        f.spec_next().spec_next().spec_next().spec_next().spec_next() == f,
{
}

/// A selection that lies within the list stays within it when it moves.
pub proof fn lemma_selection_stays_within(selected: Option<usize>, len: usize)
    requires
        match selected {
            Some(s) => s < len,
            None => true,
        },
    ensures
        match spec_select_up(selected, len) {
            Some(s) => s < len,
            None => len == 0,
        },
        match spec_select_down(selected, len) {
            Some(s) => s < len,
            None => len == 0,
        },
{
}

/// Priorities stay among 0 to 2 and levels among 1 to 5, and a step one way
/// undoes a step the other way.
pub proof fn lemma_cycles_stay_in_range(choice: u8, level: u8, forward: bool)
    ensures
        spec_cycle_priority(choice, forward) <= 2,
        1 <= spec_cycle_level(level, forward) <= 5,
        choice <= 2 ==> spec_cycle_priority(spec_cycle_priority(choice, forward), !forward) == choice,
        1 <= level <= 5 ==> spec_cycle_level(spec_cycle_level(level, forward), !forward) == level,
{
}

/// The directive that the authoring form has put together so far.
#[derive(Clone, Debug)]
pub struct WipDirective {
    pub target: String,
    pub status: String,
    pub command_target: String,
    pub command_name: String,
    pub command_json: String,
}

impl WipDirective {
    /// A form in which nothing is chosen yet.
    pub fn new() -> (w: Self)
        ensures
            w.target@.len() == 0,
            w.status@.len() == 0,
            w.command_target@.len() == 0,
            w.command_name@.len() == 0,
            w.command_json@.len() == 0,
    {
        WipDirective {
            target: String::new(),
            status: String::new(),
            command_target: String::new(),
            command_name: String::new(),
            command_json: String::new(),
        }
    }

    /// The rule that the form describes: its status, the command's target
    /// and the command's JSON text.
    pub fn to_rule(&self) -> (rule: Rule)
        ensures
            rule@.if_status_is == self.status@,
            rule@.then_command_target == self.command_target@,
            rule@.then_command_json == self.command_json@,
    {
        Rule {
            if_status_is: self.status.clone(),
            then_command_target: self.command_target.clone(),
            then_command_json: self.command_json.clone(),
        }
    }
}

impl Default for WipDirective {
    fn default() -> (w: Self)
        ensures
            w.target@.len() == 0,
            w.status@.len() == 0,
            w.command_target@.len() == 0,
            w.command_name@.len() == 0,
            w.command_json@.len() == 0,
    {
        WipDirective::new()
    }
}

/// A destructive action that waits for its confirmation code.
#[derive(Clone, Debug)]
pub enum WipAction {
    /// Delete a rule from the bucket that the identifier names.
    DirectiveDeletion(String, Rule),
    /// Delete the topology node that the identifier names.
    PluginComponentDeletion(String),
    /// Delete an item from the vocabulary of a plugin group.
    DictionaryItemDeletion(String, String),
}

} // verus!
