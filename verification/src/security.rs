//! The privileged-action gate. A destructive action goes ahead only when the
//! administrator types the secret code of its kind. The codes come from
//! lines of the shape `KEY >> VALUE`.

use vstd::prelude::*;
use crate::keyed::{KeyedTable, lookup, with_entry};
use crate::state::{DictionaryColumn, WipAction};
use crate::text::{
    count_of, first_at, lemma_first_at_unique, occurs_at, occurs_in, same_text, split_id,
    split_once_text, strip_char, trim_text, trimmed, views_of, without_char,
};

verus! {

/// What separates key and value in a line of the codes file.
pub const MARKER: &'static str = ">>";

/// What a line declares: the key before its first marker, trimmed and with
/// its spaces taken out, and the value after it, trimmed. A line without a
/// marker declares nothing.
pub open spec fn parse_line(line: Seq<char>) -> Option<(Seq<char>, Seq<char>)> {
    if occurs_in(line, MARKER@) {
        let i = choose|i: int| first_at(line, MARKER@, i);
        Some(
            (
                without_char(trimmed(line.take(i)), ' '),
                trimmed(line.skip(i + MARKER@.len())),
            ),
        )
    } else {
        None
    }
}

/// The codes that the lines declare, a later line for a key replacing an
/// earlier one.
pub open spec fn parse_lines(lines: Seq<Seq<char>>) -> Seq<(Seq<char>, Seq<char>)>
    decreases lines.len(),
{
    if lines.len() == 0 {
        Seq::empty()
    } else {
        let before = parse_lines(lines.drop_last());
        match parse_line(lines.last()) {
            Some((k, v)) => with_entry(before, k, v),
            None => before,
        }
    }
}

/// If a text occurs at all, it has a first occurrence.
proof fn lemma_has_first(line: Seq<char>, needle: Seq<char>, k: int)
    requires
        occurs_at(line, needle, k),
    ensures
        exists|i: int| first_at(line, needle, i),
    decreases k,
{
    if exists|j: int| 0 <= j < k && occurs_at(line, needle, j) {
        let j = choose|j: int| 0 <= j < k && occurs_at(line, needle, j);
        lemma_has_first(line, needle, j);
    } else {
        assert(first_at(line, needle, k));
    }
}

/// Reads one line of the codes file.
pub fn parse_code_line(line: &str) -> (entry: Option<(String, String)>)
    ensures
        match entry {
            Some((k, v)) => parse_line(line@) == Some((k@, v@)),
            None => parse_line(line@) is None,
        },
{
    match split_once_text(line, MARKER) {
        None => None,
        Some((left, right)) => {
            proof {
                let at = choose|i: int|
                    first_at(line@, MARKER@, i) && left@ == line@.take(i) && right@
                        == line@.skip(i + MARKER@.len());
                assert(occurs_at(line@, MARKER@, at));
                let picked = choose|i: int| first_at(line@, MARKER@, i);
                lemma_has_first(line@, MARKER@, at);
                lemma_first_at_unique(line@, MARKER@, at, picked);
            }
            let key_trimmed = trim_text(left.as_str());
            let key = strip_char(key_trimmed.as_str(), ' ');
            let value = trim_text(right.as_str());
            Some((key, value))
        },
    }
}

/// The secret codes, by the name of the action kind.
#[derive(Debug, Clone)]
pub struct SecurityCodes {
    pub codes: KeyedTable<String>,
}

impl View for SecurityCodes {
    type V = Seq<(Seq<char>, Seq<char>)>;

    open spec fn view(&self) -> Self::V {
        self.codes@
    }
}

impl SecurityCodes {
    /// No key occurs twice.
    pub open spec fn wf(&self) -> bool {
        self.codes.wf()
    }

    /// No codes at all.
    pub fn new() -> (c: Self)
        ensures
            c.wf(),
            c@ == Seq::<(Seq<char>, Seq<char>)>::empty(),
    {
        SecurityCodes { codes: KeyedTable::new() }
    }

    /// The codes that the lines of a codes file declare. Lines without the
    /// marker are passed over.
    pub fn from_lines(lines: &Vec<String>) -> (c: Self)
        ensures
            c.wf(),
            c@ == parse_lines(views_of(lines@)),
    {
        let mut c = SecurityCodes::new();
        let n = lines.len();
        let mut i: usize = 0;
        let ghost all = views_of(lines@);
        assert(all.take(0) =~= Seq::<Seq<char>>::empty());
        while i < n
            invariant
                n == lines@.len(),
                all == views_of(lines@),
                i <= n,
                c.wf(),
                c@ == parse_lines(all.take(i as int)),
            decreases n - i,
        {
            proof {
                assert(all.take(i + 1).drop_last() =~= all.take(i as int));
                assert(all.take(i + 1).last() == lines@[i as int]@);
            }
            match parse_code_line(lines[i].as_str()) {
                Some((k, v)) => {
                    let _former = c.codes.insert(k, v);
                },
                None => {},
            }
            i = i + 1;
        }
        assert(all.take(n as int) =~= all);
        c
    }

    /// The code stored for `action`.
    pub fn get_code(&self, action: &str) -> (code: Option<&String>)
        requires
            self.wf(),
        ensures
            match code {
                Some(c) => lookup(self@, action@) == Some(c@),
                None => lookup(self@, action@) is None,
            },
    {
        self.codes.get(action)
    }
}

impl Default for SecurityCodes {
    fn default() -> (c: Self)
        ensures
            c.wf(),
            c@ == Seq::<(Seq<char>, Seq<char>)>::empty(),
    {
        SecurityCodes::new()
    }
}

/// The kinds of destructive action, each with a secret code of its own.
#[derive(Clone, Copy, Debug, PartialEq, Eq, Structural)]
pub enum ActionKind {
    DirectiveDeletion,
    PluginDeletion,
    SubsectionDeletion,
    EntityDeletion,
    StatusCodeDeletion,
    CommandCodeDeletion,
}

impl ActionKind {
    /// The key under which the codes file holds this kind's code.
    pub open spec fn key(self) -> Seq<char> {
        match self {
            ActionKind::DirectiveDeletion => "DirectiveDeletion"@,
            ActionKind::PluginDeletion => "PluginDeletion"@,
            ActionKind::SubsectionDeletion => "SubsectionDeletion"@,
            ActionKind::EntityDeletion => "EntityDeletion"@,
            ActionKind::StatusCodeDeletion => "StatusCodeDeletion"@,
            ActionKind::CommandCodeDeletion => "CommandCodeDeletion"@,
        }
    }

    /// The key under which the codes file holds this kind's code.
    pub fn code_key(&self) -> (k: &'static str)
        ensures
            k@ == self.key(),
    {
        match self {
            ActionKind::DirectiveDeletion => "DirectiveDeletion",
            ActionKind::PluginDeletion => "PluginDeletion",
            ActionKind::SubsectionDeletion => "SubsectionDeletion",
            ActionKind::EntityDeletion => "EntityDeletion",
            ActionKind::StatusCodeDeletion => "StatusCodeDeletion",
            ActionKind::CommandCodeDeletion => "CommandCodeDeletion",
        }
    }
}

/// The kind of a pending action. A topology node is a plugin group if its
/// identifier has no underscore, a subsection if it has one, and an entity
/// otherwise. A dictionary item is a status code or a command template by
/// the column it was picked in; picked in the plugin column it has no kind.
pub open spec fn kind_of(action: WipAction, column: DictionaryColumn) -> Option<ActionKind> {
    match action {
        WipAction::DirectiveDeletion(_, _) => Some(ActionKind::DirectiveDeletion),
        WipAction::PluginComponentDeletion(id) => Some(
            if count_of(id@, '_') == 0 {
                ActionKind::PluginDeletion
            } else if count_of(id@, '_') == 1 {
                ActionKind::SubsectionDeletion
            } else {
                ActionKind::EntityDeletion
            },
        ),
        WipAction::DictionaryItemDeletion(_, _) => match column {
            DictionaryColumn::StatusCodes => Some(ActionKind::StatusCodeDeletion),
            DictionaryColumn::Commands => Some(ActionKind::CommandCodeDeletion),
            DictionaryColumn::Plugins => None,
        },
    }
}

/// The code that confirms a pending action: the one stored for its kind.
/// Where the action has no kind, or no code is stored for it, the expected
/// code is empty.
pub open spec fn expected_code(codes: Seq<(Seq<char>, Seq<char>)>, action: WipAction, column: DictionaryColumn) -> Seq<char> {
    match kind_of(action, column) {
        Some(kind) => match lookup(codes, kind.key()) {
            Some(code) => code,
            None => Seq::empty(),
        },
        None => Seq::empty(),
    }
}

/// The kind of a pending action.
pub fn action_kind(action: &WipAction, column: DictionaryColumn) -> (kind: Option<ActionKind>)
    ensures
        kind == kind_of(*action, column),
{
    match action {
        WipAction::DirectiveDeletion(_, _) => Some(ActionKind::DirectiveDeletion),
        WipAction::PluginComponentDeletion(id) => {
            let parts = split_id(id.as_str());
            if parts.len() == 1 {
                Some(ActionKind::PluginDeletion)
            } else if parts.len() == 2 {
                Some(ActionKind::SubsectionDeletion)
            } else {
                Some(ActionKind::EntityDeletion)
            }
        },
        WipAction::DictionaryItemDeletion(_, _) => match column {
            DictionaryColumn::StatusCodes => Some(ActionKind::StatusCodeDeletion),
            DictionaryColumn::Commands => Some(ActionKind::CommandCodeDeletion),
            DictionaryColumn::Plugins => None,
        },
    }
}

/// Whether what the administrator typed confirms the pending action: it has
/// to equal the expected code, character for character.
pub fn is_authorized(codes: &SecurityCodes, action: &WipAction, column: DictionaryColumn, typed: &str) -> (go: bool)
    requires
        codes.wf(),
    ensures
        go == (typed@ == expected_code(codes@, *action, column)),
{
    let expected: &str = match action_kind(action, column) {
        Some(kind) => match codes.get_code(kind.code_key()) {
            Some(code) => code.as_str(),
            None => "",
        },
        None => "",
    };
    proof {
        reveal_strlit("");
        assert(""@ =~= Seq::<char>::empty());
    }
    same_text(typed, expected)
}

} // verus!
