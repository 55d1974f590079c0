//! The registry of live plugin sessions. A session is keyed by its token and
//! nothing else; it remembers who connected, the last status reported and
//! when the session was last heard of. Time is a count of milliseconds on a
//! clock that never runs backwards: the registry keeps the latest reading it
//! was given and stamps sessions with it.

use vstd::prelude::*;
use crate::keyed::{KeyedTable, has_key, key_index, lookup, with_entry, without_key, distinct_keys, lemma_key_index_unique};
use crate::text::{same_text, views_of};

verus! {

/// The status of a session that has authenticated and not reported yet.
pub const AUTHENTICATED: &'static str = "Authenticated";

/// A session that has been silent for longer than this many milliseconds is
/// evicted by the liveness monitor.
pub const IDLE_TIMEOUT_MS: u64 = 15000;

/// The liveness monitor looks at the registry once in this many
/// milliseconds.
pub const MONITOR_PERIOD_MS: u64 = 5000;

/// The live state of one connected plugin.
#[derive(Debug)]
pub struct PluginState {
    pub entity_id: String,
    pub session_token: String,
    pub status: String,
    pub last_seen: u64,
}

/// A session as plain values.
pub struct PluginStateView {
    pub entity_id: Seq<char>,
    pub session_token: Seq<char>,
    pub status: Seq<char>,
    pub last_seen: u64,
}

impl View for PluginState {
    type V = PluginStateView;

    open spec fn view(&self) -> PluginStateView {
        PluginStateView {
            entity_id: self.entity_id@,
            session_token: self.session_token@,
            status: self.status@,
            last_seen: self.last_seen,
        }
    }
}

impl Clone for PluginState {
    fn clone(&self) -> (copy: Self)
        ensures
            copy@ == self@,
    {
        PluginState {
            entity_id: self.entity_id.clone(),
            session_token: self.session_token.clone(),
            status: self.status.clone(),
            last_seen: self.last_seen,
        }
    }
}

/// A live session: its state and the sending end of its command channel.
#[derive(Debug)]
pub struct ActivePlugin<S> {
    pub state: PluginState,
    pub command_sender: S,
}

/// A live session as the contracts speak of it: its state as plain values,
/// and the sending end that it holds.
pub struct ActivePluginView<S> {
    pub state: PluginStateView,
    pub command_sender: S,
}

impl<S> View for ActivePlugin<S> {
    type V = ActivePluginView<S>;

    open spec fn view(&self) -> ActivePluginView<S> {
        ActivePluginView { state: self.state@, command_sender: self.command_sender }
    }
}

/// The sessions of a registry, by token, in the order in which they were
/// opened.
pub type Sessions<S> = Seq<(Seq<char>, ActivePluginView<S>)>;

/// Whether the session has been silent for longer than the idle timeout at
/// time `now`.
pub open spec fn idle_at(s: PluginStateView, now: u64) -> bool {
    now - s.last_seen > IDLE_TIMEOUT_MS
}

/// The test that a session passes while it is not idle at `now`.
pub open spec fn live_at<S>(now: u64) -> spec_fn((Seq<char>, ActivePluginView<S>)) -> bool {
    |e: (Seq<char>, ActivePluginView<S>)| !idle_at(e.1.state, now)
}

/// The test that a session passes while it is idle at `now`.
pub open spec fn idle_sessions<S>(now: u64) -> spec_fn((Seq<char>, ActivePluginView<S>)) -> bool {
    |e: (Seq<char>, ActivePluginView<S>)| idle_at(e.1.state, now)
}

/// The entities that the sessions belong to, in the sessions' order.
pub open spec fn entity_ids<S>(sessions: Sessions<S>) -> Seq<Seq<char>> {
    sessions.map_values(|e: (Seq<char>, ActivePluginView<S>)| e.1.state.entity_id)
}

/// Whether position `i` holds the first session of entity `entity_id`.
pub open spec fn is_first_of<S>(sessions: Sessions<S>, entity_id: Seq<char>, i: int) -> bool {
    &&& 0 <= i < sessions.len()
    &&& sessions[i].1.state.entity_id == entity_id
    &&& forall|j: int| 0 <= j < i ==> (#[trigger] sessions[j]).1.state.entity_id != entity_id
}

/// Whether some session belongs to entity `entity_id`.
pub open spec fn connected<S>(sessions: Sessions<S>, entity_id: Seq<char>) -> bool {
    exists|i: int| 0 <= i < sessions.len() && (#[trigger] sessions[i]).1.state.entity_id == entity_id
}

/// The sending end that a command for entity `entity_id` goes to: the one
/// that the first session of that entity holds, if the entity is connected.
pub open spec fn sender_for<S>(sessions: Sessions<S>, entity_id: Seq<char>) -> Option<S> {
    if connected(sessions, entity_id) {
        Some(sessions[choose|i: int| is_first_of(sessions, entity_id, i)].1.command_sender)
    } else {
        None
    }
}

/// The first session of an entity is the only one at its place: `sender_for`
/// names the sending end that it holds.
pub proof fn lemma_first_of<S>(sessions: Sessions<S>, entity_id: Seq<char>, i: int)
    requires
        is_first_of(sessions, entity_id, i),
    ensures
        connected(sessions, entity_id),
        sender_for(sessions, entity_id) == Some(sessions[i].1.command_sender),
{
    let k = choose|k: int| is_first_of(sessions, entity_id, k);
    assert(is_first_of(sessions, entity_id, k));
    if k < i {
        assert(sessions[k].1.state.entity_id != entity_id);
    } else if i < k {
        assert(sessions[i].1.state.entity_id != entity_id);
    }
}

/// An entity that is connected has a first session.
pub proof fn lemma_has_first<S>(sessions: Sessions<S>, entity_id: Seq<char>, k: int)
    requires
        0 <= k < sessions.len(),
        sessions[k].1.state.entity_id == entity_id,
    ensures
        exists|i: int| is_first_of(sessions, entity_id, i),
    decreases k,
{
    if exists|j: int| 0 <= j < k && (#[trigger] sessions[j]).1.state.entity_id == entity_id {
        let j = choose|j: int| 0 <= j < k && (#[trigger] sessions[j]).1.state.entity_id == entity_id;
        lemma_has_first(sessions, entity_id, j);
    } else {
        assert(is_first_of(sessions, entity_id, k));
    }
}

/// The later of two clock readings.
pub open spec fn later(a: u64, b: u64) -> u64 {
    if a >= b {
        a
    } else {
        b
    }
}

/// The session as it is after a report with `status` at time `now`: it was
/// seen at `now`, and a status that is not empty replaces the former one.
pub open spec fn reported(s: PluginStateView, status: Seq<char>, now: u64) -> PluginStateView {
    PluginStateView {
        status: if status.len() > 0 {
            status
        } else {
            s.status
        },
        last_seen: now,
        ..s
    }
}

/// The session that an accepted handshake opens: in status `Authenticated`,
/// seen at `seen`, and holding `sender`.
pub open spec fn fresh_session<S>(entity_id: Seq<char>, token: Seq<char>, seen: u64, sender: S) -> ActivePluginView<S> {
    ActivePluginView {
        state: PluginStateView {
            entity_id,
            session_token: token,
            status: AUTHENTICATED@,
            last_seen: seen,
        },
        command_sender: sender,
    }
}

/// The sessions after the session under `token` was handed `sender`: that
/// session holds `sender` and is otherwise as it was, and so is every other
/// session. Without a session under `token` nothing changes.
pub open spec fn attached<S>(sessions: Sessions<S>, token: Seq<char>, sender: S) -> Sessions<S> {
    match lookup(sessions, token) {
        Some(s) => with_entry(sessions, token, ActivePluginView { command_sender: sender, ..s }),
        None => sessions,
    }
}

/// The sessions after a report with `status` under `token` at time `now`:
/// that session's state is the reported one, it holds the sending end that
/// it held, and every other session is as it was. Without a session under
/// `token` nothing changes.
pub open spec fn after_report<S>(sessions: Sessions<S>, token: Seq<char>, status: Seq<char>, now: u64) -> Sessions<S> {
    match lookup(sessions, token) {
        Some(s) => with_entry(
            sessions,
            token,
            ActivePluginView { state: reported(s.state, status, now), ..s },
        ),
        None => sessions,
    }
}

/// Once a stream is open, commands for its entity reach it: if the session
/// under `token` is the first of its entity, then after it was handed
/// `sender`, a command for that entity goes to `sender`.
pub proof fn lemma_open_stream_is_reached<S>(sessions: Sessions<S>, token: Seq<char>, sender: S)
    requires
        distinct_keys(sessions),
        has_key(sessions, token),
        is_first_of(
            sessions,
            sessions[key_index(sessions, token)].1.state.entity_id,
            key_index(sessions, token),
        ),
    ensures
        sender_for(
            attached(sessions, token, sender),
            sessions[key_index(sessions, token)].1.state.entity_id,
        ) == Some(sender),
{
    let i = key_index(sessions, token);
    let after = attached(sessions, token, sender);
    let entity = sessions[i].1.state.entity_id;
    assert(after[i].1.command_sender == sender);
    assert forall|j: int| 0 <= j < i implies (#[trigger] after[j]).1.state.entity_id != entity by {
        assert(after[j] == sessions[j]);
    }
    assert(is_first_of(after, entity, i));
    lemma_first_of(after, entity, i);
}

/// A command reaches the stream that was opened for its target: if the
/// session under `target_token` is the first of its entity and was handed
/// `sender` when its stream opened, then after a report under any token a
/// command for that entity still goes to `sender`.
pub proof fn lemma_dispatch_reaches_open_stream<S>(sessions: Sessions<S>, target_token: Seq<char>, sender: S, reporter_token: Seq<char>, status: Seq<char>, now: u64)
    requires
        distinct_keys(sessions),
        has_key(sessions, target_token),
        is_first_of(
            sessions,
            sessions[key_index(sessions, target_token)].1.state.entity_id,
            key_index(sessions, target_token),
        ),
    ensures
        sender_for(
            after_report(attached(sessions, target_token, sender), reporter_token, status, now),
            sessions[key_index(sessions, target_token)].1.state.entity_id,
        ) == Some(sender),
{
    let i = key_index(sessions, target_token);
    let entity = sessions[i].1.state.entity_id;
    let opened = attached(sessions, target_token, sender);
    lemma_open_stream_is_reached(sessions, target_token, sender);
    crate::keyed::lemma_with_entry(
        sessions,
        target_token,
        ActivePluginView { command_sender: sender, ..sessions[i].1 },
    );
    lemma_key_index_unique(sessions, i);
    lemma_report_keeps_senders(opened, reporter_token, status, now, entity);
}

/// A report changes no sending end and no entity: a command for any entity
/// goes where it went before the report.
pub proof fn lemma_report_keeps_senders<S>(sessions: Sessions<S>, token: Seq<char>, status: Seq<char>, now: u64, entity_id: Seq<char>)
    requires
        distinct_keys(sessions),
    ensures
        sender_for(after_report(sessions, token, status, now), entity_id) == sender_for(
            sessions,
            entity_id,
        ),
{
    let after = after_report(sessions, token, status, now);
    assert(after.len() == sessions.len());
    assert forall|j: int| 0 <= j < sessions.len() implies (#[trigger] after[j]).1.state.entity_id
        == sessions[j].1.state.entity_id && after[j].1.command_sender
        == sessions[j].1.command_sender by {}
    if connected(sessions, entity_id) {
        let k = choose|k: int|
            0 <= k < sessions.len() && (#[trigger] sessions[k]).1.state.entity_id == entity_id;
        lemma_has_first(sessions, entity_id, k);
        let i = choose|i: int| is_first_of(sessions, entity_id, i);
        assert(after[i].1.state.entity_id == entity_id);
        assert forall|j: int| 0 <= j < i implies (#[trigger] after[j]).1.state.entity_id
            != entity_id by {
            assert(sessions[j].1.state.entity_id != entity_id);
        }
        assert(is_first_of(after, entity_id, i));
        lemma_first_of(after, entity_id, i);
        lemma_first_of(sessions, entity_id, i);
    } else {
        if connected(after, entity_id) {
            let k = choose|k: int|
                0 <= k < after.len() && (#[trigger] after[k]).1.state.entity_id == entity_id;
            assert(sessions[k].1.state.entity_id == entity_id);
        }
    }
}

/// The registry of live sessions, generic in the sending end of a command
/// channel.
#[derive(Debug)]
pub struct ApolloState<S> {
    active_plugins: KeyedTable<ActivePlugin<S>>,
    clock: u64,
}

impl<S> View for ApolloState<S> {
    type V = Sessions<S>;

    closed spec fn view(&self) -> Sessions<S> {
        self.active_plugins@
    }
}

impl<S> ApolloState<S> {
    /// The latest clock reading that the registry was given.
    pub closed spec fn now(&self) -> u64 {
        self.clock
    }

    /// The registry's invariant: tokens are distinct, every session stands
    /// under its own token, and none was seen later than the registry's
    /// clock reads.
    pub closed spec fn wf(&self) -> bool {
        &&& self.active_plugins.wf()
        &&& forall|i: int|
            0 <= i < self@.len() ==> (#[trigger] self@[i]).0 == self@[i].1.state.session_token
                && self@[i].1.state.last_seen <= self.now()
    }

    /// What the invariant says of the sessions: tokens are distinct, every
    /// session stands under its own token, and none was seen later than the
    /// registry's clock reads.
    pub proof fn lemma_wf(&self)
        requires
            self.wf(),
        ensures
            distinct_keys(self@),
            forall|i: int|
                0 <= i < self@.len() ==> (#[trigger] self@[i]).0 == self@[i].1.state.session_token
                    && self@[i].1.state.last_seen <= self.now(),
    {
        self.active_plugins.lemma_view();
    }

    /// A registry without sessions, its clock at zero.
    pub fn new() -> (r: Self)
        ensures
            r.wf(),
            r@ == Sessions::<S>::empty(),
            r.now() == 0,
    {
        ApolloState { active_plugins: KeyedTable::new(), clock: 0 }
    }

    /// The number of live sessions.
    pub fn len(&self) -> (n: usize)
        requires
            self.wf(),
        ensures
            n == self@.len(),
    {
        self.active_plugins.len()
    }

    /// Moves the clock to `now` unless it is ahead already; answers the
    /// reading that holds afterwards.
    fn advance(&mut self, now: u64) -> (reading: u64)
        requires
            old(self).wf(),
        ensures
            final(self).wf(),
            final(self)@ == old(self)@,
            reading == later(old(self).now(), now),
            final(self).now() == reading,
    {
        if now > self.clock {
            self.clock = now;
        }
        proof {
            let before = old(self)@;
            assert(self@ == before);
            assert forall|i: int| 0 <= i < self@.len() implies (#[trigger] self@[i]).0
                == self@[i].1.state.session_token && self@[i].1.state.last_seen
                <= self.now() by {
                assert(before[i].1.state.last_seen <= old(self).now());
            }
        }
        self.clock
    }

    /// Whether a session with this token is live.
    pub fn is_known(&self, token: &str) -> (b: bool)
        requires
            self.wf(),
        ensures
            b == has_key(self@, token@),
    {
        self.active_plugins.contains_key(token)
    }

    /// Opens a session for `entity_id` under `token`, in status
    /// `Authenticated` and seen now. A session that held the same token is
    /// replaced.
    pub fn register(&mut self, entity_id: String, token: String, sender: S, now: u64)
        requires
            old(self).wf(),
        ensures
            final(self).wf(),
            final(self).now() == later(old(self).now(), now),
            final(self)@ == with_entry(
                old(self)@,
                token@,
                fresh_session(entity_id@, token@, later(old(self).now(), now), sender),
            ),
    {
        let reading = self.advance(now);
        let ghost before = self@;
        let state = PluginState {
            entity_id,
            session_token: token.clone(),
            status: AUTHENTICATED.to_owned(),
            last_seen: reading,
        };
        let _former = self.active_plugins.insert(
            token,
            ActivePlugin { state, command_sender: sender },
        );
        proof {
            let after = self@;
            assert forall|i: int| 0 <= i < after.len() implies (#[trigger] after[i]).0
                == after[i].1.state.session_token && after[i].1.state.last_seen
                <= self.now() by {
                if i < before.len() && !(has_key(before, token@) && i == key_index(before, token@)) {
                    assert(after[i] == before[i]);
                }
            }
        }
    }

    /// Hands the session under `token` a new sending end for its commands:
    /// from now on the session holds `sender` in place of the one it held.
    /// Says whether there is such a session; without one nothing changes and
    /// `sender` is dropped.
    pub fn attach_sender(&mut self, token: &str, sender: S) -> (done: bool)
        requires
            old(self).wf(),
        ensures
            final(self).wf(),
            final(self).now() == old(self).now(),
            final(self)@ == attached(old(self)@, token@, sender),
            done == has_key(old(self)@, token@),
            done ==> lookup(final(self)@, token@) is Some && lookup(
                final(self)@,
                token@,
            ).unwrap().command_sender == sender,
    {
        let ghost before = self@;
        proof {
            self.active_plugins.lemma_view();
        }
        match self.active_plugins.position(token) {
            Some(i) => {
                let session = self.active_plugins.value_at_mut(i);
                session.command_sender = sender;
                proof {
                    lemma_key_index_unique(before, i as int);
                    let s = before[i as int].1;
                    let held = ActivePluginView { command_sender: sender, ..s };
                    assert(self@ =~= with_entry(before, token@, held));
                    crate::keyed::lemma_with_entry(before, token@, held);
                    let after = self@;
                    assert forall|k: int| 0 <= k < after.len() implies (#[trigger] after[k]).0
                        == after[k].1.state.session_token && after[k].1.state.last_seen
                        <= self.now() by {
                        if k != i {
                            assert(after[k] == before[k]);
                        }
                    }
                }
                true
            },
            None => false,
        }
    }

    /// Records a report from the session under `token`: the session was seen
    /// now, and a status that is not empty becomes its status. Answers the
    /// reporting entity's identifier, or nothing if no session holds the
    /// token, in which case only the clock moves.
    pub fn record_report(&mut self, token: &str, status: &str, now: u64) -> (reporter: Option<String>)
        requires
            old(self).wf(),
        ensures
            final(self).wf(),
            final(self).now() == later(old(self).now(), now),
            final(self)@ == after_report(old(self)@, token@, status@, final(self).now()),
            match reporter {
                Some(id) => lookup(old(self)@, token@) is Some && id@ == lookup(
                    old(self)@,
                    token@,
                ).unwrap().state.entity_id,
                None => lookup(old(self)@, token@) is None && final(self)@ == old(self)@,
            },
    {
        let reading = self.advance(now);
        let ghost before = self@;
        proof {
            self.active_plugins.lemma_view();
        }
        match self.active_plugins.position(token) {
            Some(i) => {
                let session = self.active_plugins.value_at_mut(i);
                session.state.last_seen = reading;
                if !status.is_empty() {
                    session.state.status = status.to_owned();
                }
                let id = session.state.entity_id.clone();
                proof {
                    lemma_key_index_unique(before, i as int);
                    let s = before[i as int].1;
                    assert(self@ =~= with_entry(
                        before,
                        token@,
                        ActivePluginView { state: reported(s.state, status@, reading), ..s },
                    ));
                    let after = self@;
                    assert forall|k: int| 0 <= k < after.len() implies (#[trigger] after[k]).0
                        == after[k].1.state.session_token && after[k].1.state.last_seen
                        <= self.now() by {
                        if k != i {
                            assert(after[k] == before[k]);
                        }
                    }
                }
                Some(id)
            },
            None => None,
        }
    }

    /// The sending end that a command for entity `entity_id` goes to: the
    /// one held by the first session of that entity, in the order in which
    /// the sessions were opened.
    pub fn find_sender(&self, entity_id: &str) -> (found: Option<&S>)
        requires
            self.wf(),
        ensures
            match found {
                Some(s) => sender_for(self@, entity_id@) == Some(*s) && exists|i: int|
                    is_first_of(self@, entity_id@, i) && *s == self@[i].1.command_sender,
                None => !connected(self@, entity_id@) && sender_for(self@, entity_id@) is None,
            },
    {
        let n = self.active_plugins.len();
        let mut i: usize = 0;
        while i < n
            invariant
                self.wf(),
                n == self@.len(),
                i <= n,
                forall|j: int| 0 <= j < i ==> (#[trigger] self@[j]).1.state.entity_id != entity_id@,
            decreases n - i,
        {
            let session = self.active_plugins.value_at(i);
            if same_text(session.state.entity_id.as_str(), entity_id) {
                proof {
                    assert(session@ == self@[i as int].1);
                    assert(is_first_of(self@, entity_id@, i as int));
                    lemma_first_of(self@, entity_id@, i as int);
                }
                return Some(&session.command_sender);
            }
            i = i + 1;
        }
        None
    }

    /// Ends the session under `token`. Answers the entity that held it, or
    /// nothing if no session holds the token.
    pub fn disconnect(&mut self, token: &str) -> (gone: Option<String>)
        requires
            old(self).wf(),
        ensures
            final(self).wf(),
            final(self).now() == old(self).now(),
            final(self)@ == without_key(old(self)@, token@),
            match gone {
                Some(id) => lookup(old(self)@, token@) is Some && id@ == lookup(
                    old(self)@,
                    token@,
                ).unwrap().state.entity_id,
                None => lookup(old(self)@, token@) is None,
            },
    {
        let ghost before = self@;
        proof {
            self.active_plugins.lemma_view();
        }
        match self.active_plugins.remove(token) {
            Some(session) => {
                proof {
                    let at = key_index(before, token@);
                    let after = self@;
                    assert forall|k: int| 0 <= k < after.len() implies (#[trigger] after[k]).0
                        == after[k].1.state.session_token && after[k].1.state.last_seen
                        <= self.now() by {
                        let j = if k < at { k } else { k + 1 };
                        assert(after[k] == before[j]);
                    }
                }
                Some(session.state.entity_id)
            },
            None => None,
        }
    }

    /// Evicts every session that has been silent for longer than the idle
    /// timeout and keeps the others in their order. Answers the entities
    /// whose sessions were evicted.
    pub fn evict_idle(&mut self, now: u64) -> (evicted: Vec<String>)
        requires
            old(self).wf(),
        ensures
            final(self).wf(),
            final(self).now() == later(old(self).now(), now),
            final(self)@ == old(self)@.filter(live_at(final(self).now())),
            forall|i: int|
                0 <= i < final(self)@.len() ==> (#[trigger] final(self)@[i]).1.state.last_seen
                    <= final(self).now() && final(self).now() - final(
                    self
                )@[i].1.state.last_seen <= IDLE_TIMEOUT_MS,
            evicted@.len() == old(self)@.len() - final(self)@.len(),
            views_of(evicted@) == entity_ids(
                old(self)@.filter(idle_sessions(final(self).now())),
            ),
    {
        let reading = self.advance(now);
        let ghost orig = self@;
        let ghost pred = live_at::<S>(reading);
        let ghost idle = idle_sessions::<S>(reading);
        let mut evicted: Vec<String> = Vec::new();
        let mut i: usize = 0;
        let ghost mut j: int = 0;
        proof {
            reveal(Seq::filter);
            assert(orig.take(0) =~= Sessions::<S>::empty());
            assert(self@.take(0) =~= Sessions::<S>::empty());
            assert(self@.skip(0) =~= orig.skip(0));
            assert(views_of(evicted@) =~= entity_ids(orig.take(0).filter(idle)));
        }
        while i < self.active_plugins.len()
            invariant
                self.wf(),
                self.now() == reading,
                pred == live_at::<S>(reading),
                idle == idle_sessions::<S>(reading),
                views_of(evicted@) == entity_ids(orig.take(j).filter(idle)),
                0 <= j <= orig.len(),
                i <= self@.len(),
                self@.len() - i == orig.len() - j,
                self@.take(i as int) == orig.take(j).filter(pred),
                self@.skip(i as int) == orig.skip(j),
                evicted@.len() == j - i,
                forall|k: int| 0 <= k < i ==> !idle_at((#[trigger] self@[k]).1.state, reading),
            decreases self@.len() - i,
        {
            let ghost cur = self@;
            proof {
                reveal(Seq::filter);
                assert(cur[i as int] == cur.skip(i as int)[0]);
                assert(orig[j] == orig.skip(j)[0]);
                assert(orig.take(j + 1).drop_last() =~= orig.take(j));
                assert(orig.take(j + 1).last() == orig[j]);
            }
            let session = self.active_plugins.value_at(i);
            if reading - session.state.last_seen > IDLE_TIMEOUT_MS {
                let ghost named = views_of(evicted@);
                let ghost idle_before = orig.take(j).filter(idle);
                let gone = self.active_plugins.remove_at(i);
                evicted.push(gone.state.entity_id);
                proof {
                    let after = self@;
                    assert(gone@ == cur[i as int].1);
                    assert(views_of(evicted@) =~= named.push(gone@.state.entity_id));
                    assert(entity_ids(idle_before.push(orig[j])) =~= entity_ids(idle_before).push(
                        orig[j].1.state.entity_id,
                    ));
                    assert(after.take(i as int) =~= cur.take(i as int));
                    assert(after.skip(i as int) =~= cur.skip(i as int).skip(1));
                    assert(orig.skip(j + 1) =~= orig.skip(j).skip(1));
                    assert forall|k: int| 0 <= k < after.len() implies (#[trigger] after[k]).0
                        == after[k].1.state.session_token && after[k].1.state.last_seen
                        <= self.now() by {
                        let k0 = if k < i { k } else { k + 1 };
                        assert(after[k] == cur[k0]);
                    }
                    assert forall|k: int| 0 <= k < i implies !idle_at(
                        (#[trigger] after[k]).1.state,
                        reading,
                    ) by {
                        assert(after[k] == cur[k]);
                    }
                    j = j + 1;
                }
            } else {
                proof {
                    assert(cur.take(i + 1) =~= cur.take(i as int).push(cur[i as int]));
                    assert(cur.skip(i + 1) =~= cur.skip(i as int).skip(1));
                    assert(orig.skip(j + 1) =~= orig.skip(j).skip(1));
                    j = j + 1;
                }
                i = i + 1;
            }
        }
        proof {
            assert(self@.take(i as int) =~= self@);
            assert(orig.take(j) =~= orig);
        }
        evicted
    }

    /// A copy of every session's state, in the order in which they were opened.
    pub fn snapshot(&self) -> (states: Vec<PluginState>)
        requires
            self.wf(),
        ensures
            states@.len() == self@.len(),
            forall|i: int| 0 <= i < states@.len() ==> (#[trigger] states@[i])@ == self@[i].1.state,
    {
        let n = self.active_plugins.len();
        let mut states: Vec<PluginState> = Vec::new();
        let mut i: usize = 0;
        while i < n
            invariant
                self.wf(),
                n == self@.len(),
                i <= n,
                states@.len() == i,
                forall|k: int| 0 <= k < i ==> (#[trigger] states@[k])@ == self@[k].1.state,
            decreases n - i,
        {
            let copy = self.active_plugins.value_at(i).state.clone();
            states.push(copy);
            i = i + 1;
        }
        states
    }
}

impl<S> Default for ApolloState<S> {
    fn default() -> (r: Self)
        ensures
            r.wf(),
            r@ == Sessions::<S>::empty(),
    {
        ApolloState::new()
    }
}

} // verus!
