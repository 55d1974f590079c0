//! The decisions of the plugin protocol: whether a handshake is accepted,
//! whether a status stream may open, and what a status report leads to. The
//! transport around them performs what they decide.

use vstd::prelude::*;
use crate::config::{Config, ConfigView};
use crate::engine::{DirectiveEngine, dispatch_of};
use crate::keyed::{has_key, lemma_with_entry, lemma_without_key, lookup, with_entry};
use crate::session::{
    ApolloState, after_report, attached, fresh_session, later, lemma_report_keeps_senders,
    sender_for,
};
use crate::text::{count_of, id_parts, lemma_split_len, same_text, split_id};

verus! {

/// The status that accompanies a command sent to a plugin.
pub const COMMAND_ISSUED: &'static str = "CommandIssued";

/// The message that accompanies a session token.
pub const HANDSHAKE_ACCEPTED: &'static str = "Authentication successful.";

/// The capacity of the command channel that a session holds between its
/// handshake and its first status report.
pub const PLACEHOLDER_CHANNEL_CAPACITY: usize = 4;

/// The capacity of the command channel of an open status stream.
pub const STREAM_CHANNEL_CAPACITY: usize = 32;

/// How a handshake ends.
#[derive(Clone, Copy, Debug, PartialEq, Eq, Structural)]
pub enum Verdict {
    /// The identifier names a node of the topology and the key is its key.
    Accepted,
    /// The identifier has an accepted shape, but names no node or the key
    /// is not the node's key.
    Unauthenticated,
    /// The identifier has neither one nor three components.
    InvalidArgument,
}

/// Why a handshake or a status stream was refused.
#[derive(Clone, Copy, Debug, PartialEq, Eq, Structural)]
pub enum Refusal {
    /// Bad credentials.
    Unauthenticated,
    /// A malformed identifier, a missing first status report, or a first
    /// status report with an unknown token.
    InvalidArgument,
}

/// The key that the topology holds for `id`: the entity's for an identifier
/// of three components, the plugin group's for one of one component.
pub open spec fn registered_key(cfg: ConfigView, id: Seq<char>) -> Option<Seq<char>> {
    let parts = id_parts(id);
    if parts.len() == 3 {
        match lookup(cfg.plugins, parts[0]) {
            None => None,
            Some(p) => match lookup(p.subsections, parts[1]) {
                None => None,
                Some(s) => match lookup(s.entities, parts[2]) {
                    None => None,
                    Some(e) => Some(e.auth_key),
                },
            },
        }
    } else if parts.len() == 1 {
        match lookup(cfg.plugins, parts[0]) {
            None => None,
            Some(p) => Some(p.auth_key),
        }
    } else {
        None
    }
}

/// How a handshake with `id` and `auth_key` ends on the given topology.
pub open spec fn verdict_of(cfg: ConfigView, id: Seq<char>, auth_key: Seq<char>) -> Verdict {
    let arity = id_parts(id).len();
    if arity != 1 && arity != 3 {
        Verdict::InvalidArgument
    } else if registered_key(cfg, id) == Some(auth_key) {
        Verdict::Accepted
    } else {
        Verdict::Unauthenticated
    }
}

/// An identifier with exactly two underscores is accepted only as an entity:
/// it has three components, and its key is the key of the entity that they
/// name.
pub proof fn lemma_two_underscores_is_entity(cfg: ConfigView, id: Seq<char>, auth_key: Seq<char>)
    requires
        count_of(id, '_') == 2,
        verdict_of(cfg, id, auth_key) == Verdict::Accepted,
    ensures
        id_parts(id).len() == 3,
        lookup(cfg.plugins, id_parts(id)[0]) is Some,
        lookup(lookup(cfg.plugins, id_parts(id)[0]).unwrap().subsections, id_parts(id)[1]) is Some,
        lookup(
            lookup(
                lookup(cfg.plugins, id_parts(id)[0]).unwrap().subsections,
                id_parts(id)[1],
            ).unwrap().entities,
            id_parts(id)[2],
        ) == Some(crate::config::EntityView { auth_key }),
{
    lemma_split_len(id, '_');
}

/// An identifier of two components is refused as malformed, whatever the
/// topology and the key. So is every identifier whose number of components
/// is neither one nor three.
pub proof fn lemma_arity_two_is_invalid(cfg: ConfigView, id: Seq<char>, auth_key: Seq<char>)
    requires
        id_parts(id).len() != 1,
        id_parts(id).len() != 3,
    ensures
        verdict_of(cfg, id, auth_key) == Verdict::InvalidArgument,
{
}

/// Removal cascades: once a plugin group is removed, no identifier below it
/// is accepted, whatever the key.
pub proof fn lemma_removed_plugin_is_refused(cfg: ConfigView, p: Seq<char>, id: Seq<char>, auth_key: Seq<char>)
    requires
        cfg.wf(),
        id_parts(id)[0] == p,
    ensures
        verdict_of(crate::config_manager::without_plugin(cfg, p), id, auth_key)
            != Verdict::Accepted,
{
    lemma_without_key(cfg.plugins, p);
}

/// Decides a handshake: the shape of the identifier first, then the key.
pub fn authenticate(config: &Config, entity_id: &str, auth_key: &str) -> (verdict: Verdict)
    requires
        config.wf(),
    ensures
        verdict == verdict_of(config@, entity_id@, auth_key@),
{
    let parts = split_id(entity_id);
    let ghost ids = id_parts(entity_id@);
    assert(forall|i: int| 0 <= i < parts@.len() ==> #[trigger] parts@[i]@ == ids[i]);
    let n = parts.len();
    if n == 3 {
        let key_ok = match config.plugins.get(parts[0].as_str()) {
            None => false,
            Some(p) => match p.subsections.get(parts[1].as_str()) {
                None => false,
                Some(s) => match s.entities.get(parts[2].as_str()) {
                    None => false,
                    Some(e) => same_text(e.auth_key.as_str(), auth_key),
                },
            },
        };
        if key_ok {
            Verdict::Accepted
        } else {
            Verdict::Unauthenticated
        }
    } else if n == 1 {
        let key_ok = match config.plugins.get(parts[0].as_str()) {
            None => false,
            Some(p) => same_text(p.auth_key.as_str(), auth_key),
        };
        if key_ok {
            Verdict::Accepted
        } else {
            Verdict::Unauthenticated
        }
    } else {
        Verdict::InvalidArgument
    }
}

/// A fresh session token from `uuid::Uuid::new_v4`, in the hyphenated form
/// that `Uuid` displays: 32 hexadecimal digits in five groups, 36 characters
/// in all. The digits are random, so nothing more is claimed of them.
#[verifier::external_body]
fn fresh_session_token() -> (token: String)
    ensures
        token@.len() == 36,
{
    uuid::Uuid::new_v4().to_string()
}

/// Opens the session of an accepted handshake, under `token`. The session
/// holds `sender` as the sending end of its commands.
pub fn open_session<S>(registry: &mut ApolloState<S>, entity_id: &str, token: String, sender: S, now: u64)
    requires
        old(registry).wf(),
    ensures
        final(registry).wf(),
        final(registry).now() == later(old(registry).now(), now),
        final(registry)@ == with_entry(
            old(registry)@,
            token@,
            fresh_session(entity_id@, token@, final(registry).now(), sender),
        ),
{
    registry.register(entity_id.to_owned(), token, sender, now);
}

/// The handshake: decides on `entity_id` and `auth_key`, and on success
/// opens a session under a fresh token, which it answers. `sender` is the
/// sending end that the session holds until its status stream opens. A
/// refused handshake leaves the registry as it was.
pub fn handshake<S>(config: &Config, registry: &mut ApolloState<S>, entity_id: &str, auth_key: &str, sender: S, now: u64) -> (answer: Result<String, Refusal>)
    requires
        config.wf(),
        old(registry).wf(),
    ensures
        final(registry).wf(),
        match answer {
            Ok(token) => {
                &&& verdict_of(config@, entity_id@, auth_key@) == Verdict::Accepted
                &&& token@.len() == 36
                &&& has_key(final(registry)@, token@)
                &&& final(registry).now() == later(old(registry).now(), now)
                &&& final(registry)@ == with_entry(
                    old(registry)@,
                    token@,
                    fresh_session(entity_id@, token@, final(registry).now(), sender),
                )
            },
            Err(Refusal::InvalidArgument) => {
                &&& verdict_of(config@, entity_id@, auth_key@) == Verdict::InvalidArgument
                &&& final(registry)@ == old(registry)@
                &&& final(registry).now() == old(registry).now()
            },
            Err(Refusal::Unauthenticated) => {
                &&& verdict_of(config@, entity_id@, auth_key@) == Verdict::Unauthenticated
                &&& final(registry)@ == old(registry)@
                &&& final(registry).now() == old(registry).now()
            },
        },
{
    match authenticate(config, entity_id, auth_key) {
        Verdict::Accepted => {
            let token = fresh_session_token();
            let answer = token.clone();
            proof {
                registry.lemma_wf();
                lemma_with_entry(
                    registry@,
                    token@,
                    fresh_session(entity_id@, token@, later(registry.now(), now), sender),
                );
            }
            open_session(registry, entity_id, token, sender, now);
            Ok(answer)
        },
        Verdict::Unauthenticated => Err(Refusal::Unauthenticated),
        Verdict::InvalidArgument => Err(Refusal::InvalidArgument),
    }
}

/// Opens a status stream on its first report. The report has to be there
/// and carry the token of a live session. That session then holds `sender`
/// in place of the sending end it held, so that commands dispatched from
/// now on reach this stream; nothing else changes. Otherwise the stream is
/// refused as malformed and nothing changes at all.
pub fn open_stream<S>(registry: &mut ApolloState<S>, first_token: Option<&str>, sender: S) -> (answer: Result<(), Refusal>)
    requires
        old(registry).wf(),
    ensures
        final(registry).wf(),
        final(registry).now() == old(registry).now(),
        answer is Ok == (first_token is Some && has_key(old(registry)@, first_token.unwrap()@)),
        answer is Err ==> answer == Err::<(), Refusal>(Refusal::InvalidArgument),
        answer is Err ==> final(registry)@ == old(registry)@,
        answer is Ok ==> {
            &&& final(registry)@ == attached(old(registry)@, first_token.unwrap()@, sender)
            &&& lookup(final(registry)@, first_token.unwrap()@) is Some
            &&& lookup(final(registry)@, first_token.unwrap()@).unwrap().command_sender == sender
        },
{
    match first_token {
        Some(token) => {
            if registry.attach_sender(token, sender) {
                Ok(())
            } else {
                Err(Refusal::InvalidArgument)
            }
        },
        None => Err(Refusal::InvalidArgument),
    }
}

/// A command to deliver: the entity it goes to and its JSON text.
#[derive(Debug)]
pub struct Dispatch {
    pub target: String,
    pub command_json: String,
}

/// What a status report leads to.
#[derive(Debug)]
pub enum ReportOutcome {
    /// No live session holds the report's token: the stream ends.
    UnknownSession,
    /// The report was recorded and no directive fired.
    Recorded,
    /// The report was recorded and a directive fired.
    Command(Dispatch),
}

/// What a report of `status` under `token` leads to, given the directives
/// and the sessions.
pub open spec fn dispatch_for<S>(engine: crate::directives::DirectiveConfigView, sessions: crate::session::Sessions<S>, token: Seq<char>, status: Seq<char>) -> Option<crate::directives::RuleView> {
    match lookup(sessions, token) {
        None => None,
        Some(s) => if status.len() > 0 {
            dispatch_of(engine, s.state.entity_id, status)
        } else {
            None
        },
    }
}

/// Handles one status report. An unknown token ends the stream and changes
/// nothing but the clock. Otherwise the session was seen now, a status that
/// is not empty becomes its status, and the directives are asked what that
/// status, reported by the session's entity, leads to.
pub fn process_status<S>(engine: &DirectiveEngine, registry: &mut ApolloState<S>, token: &str, status: &str, now: u64) -> (outcome: ReportOutcome)
    requires
        engine.wf(),
        old(registry).wf(),
    ensures
        final(registry).wf(),
        final(registry).now() == later(old(registry).now(), now),
        final(registry)@ == after_report(old(registry)@, token@, status@, final(registry).now()),
        forall|entity_id: Seq<char>|
            sender_for(final(registry)@, entity_id) == sender_for(old(registry)@, entity_id),
        match lookup(old(registry)@, token@) {
            None => outcome is UnknownSession && final(registry)@ == old(registry)@,
            Some(s) => {
                &&& s.state.last_seen <= final(registry).now()
                &&& match dispatch_for(engine@, old(registry)@, token@, status@) {
                    None => outcome is Recorded,
                    Some(rule) => outcome is Command && outcome->Command_0.target@
                        == rule.then_command_target && outcome->Command_0.command_json@
                        == rule.then_command_json,
                }
            },
        },
{
    proof {
        registry.lemma_wf();
        if has_key(registry@, token@) {
            let i = crate::keyed::key_index(registry@, token@);
            assert(registry@[i].1.state.last_seen <= registry.now());
        }
        assert forall|entity_id: Seq<char>|
            sender_for(
                after_report(registry@, token@, status@, later(registry.now(), now)),
                entity_id,
            ) == sender_for(registry@, entity_id) by {
            lemma_report_keeps_senders(
                registry@,
                token@,
                status@,
                later(registry.now(), now),
                entity_id,
            );
        }
    }
    match registry.record_report(token, status, now) {
        None => ReportOutcome::UnknownSession,
        Some(reporter) => {
            if status.is_empty() {
                ReportOutcome::Recorded
            } else {
                match engine.process_report(reporter.as_str(), status) {
                    Some((target, command_json)) => ReportOutcome::Command(
                        Dispatch { target, command_json },
                    ),
                    None => ReportOutcome::Recorded,
                }
            }
        },
    }
}

/// Handles the first report of a stream, which only opens the stream: the
/// session was seen now, but the report's status is neither recorded nor
/// handed to the directives, whatever it is. Says whether a live session
/// holds the token; without one only the clock moves, and the stream ends.
pub fn process_first_report<S>(registry: &mut ApolloState<S>, token: &str, now: u64) -> (known: bool)
    requires
        old(registry).wf(),
    ensures
        final(registry).wf(),
        final(registry).now() == later(old(registry).now(), now),
        known == has_key(old(registry)@, token@),
        final(registry)@ == after_report(
            old(registry)@,
            token@,
            Seq::<char>::empty(),
            final(registry).now(),
        ),
        forall|entity_id: Seq<char>|
            sender_for(final(registry)@, entity_id) == sender_for(old(registry)@, entity_id),
{
    proof {
        reveal_strlit("");
        assert(""@ =~= Seq::<char>::empty());
        registry.lemma_wf();
        assert forall|entity_id: Seq<char>|
            sender_for(
                after_report(registry@, token@, Seq::<char>::empty(), later(registry.now(), now)),
                entity_id,
            ) == sender_for(registry@, entity_id) by {
            lemma_report_keeps_senders(
                registry@,
                token@,
                Seq::<char>::empty(),
                later(registry.now(), now),
                entity_id,
            );
        }
    }
    registry.record_report(token, "", now).is_some()
}

} // verus!
