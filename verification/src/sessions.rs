//! The terminal sessions that are open, and the limits on how many may be.

use vstd::prelude::*;
use vstd::set_lib::lemma_len_subset;

use crate::error::{AppError, AppErrorView};
use crate::text::{
    decimal, decimal_of, number_up_to, optional_chars, optional_str, parse_up_to, same_text,
};

verus! {

/// An open terminal session.
#[derive(Debug)]
pub struct TerminalSession {
    pub sandbox_id: String,
    pub container_id: Option<String>,
    pub operator_id: String,
    /// When the session was opened, in microseconds since the Unix epoch.
    pub started_at: i64,
}

/// A `TerminalSession`, its strings as characters.
pub struct SessionView {
    pub sandbox_id: Seq<char>,
    pub container_id: Option<Seq<char>>,
    pub operator_id: Seq<char>,
    pub started_at: i64,
}

impl View for TerminalSession {
    type V = SessionView;

    open spec fn view(&self) -> SessionView {
        SessionView {
            sandbox_id: self.sandbox_id@,
            container_id: optional_chars(self.container_id),
            operator_id: self.operator_id@,
            started_at: self.started_at,
        }
    }
}

/// How many sessions may be open at once.
pub struct SessionLimits {
    pub total: usize,
    pub per_sandbox: usize,
}

/// The number that a setting writes, or `default` where it is missing or writes none.
pub open spec fn limit_in(setting: Option<Seq<char>>, default: nat) -> nat {
    match setting {
        Some(s) => match number_up_to(s, usize::MAX as nat) {
            Some(n) => n,
            None => default,
        },
        None => default,
    }
}

fn limit_of(setting: Option<&str>, default: usize) -> (limit: usize)
    ensures
        limit == limit_in(optional_str(setting), default as nat),
{
    match setting {
        Some(s) => match parse_up_to(s, usize::MAX as u64) {
            Some(n) => n as usize,
            None => default,
        },
        None => default,
    }
}

/// How many sessions of a sandbox are open.
pub open spec fn sessions_of(sessions: Map<Seq<char>, SessionView>, sandbox_id: Seq<char>) -> nat {
    sessions.dom().filter(|id: Seq<char>| sessions[id].sandbox_id == sandbox_id).len()
}

/// Why no session of a sandbox can be added: a limit that is reached.
pub open spec fn limit_reached(
    sessions: Map<Seq<char>, SessionView>,
    sandbox_id: Seq<char>,
    limits: SessionLimits,
) -> Option<AppErrorView> {
    if sessions.len() >= limits.total {
        Some(
            AppErrorView::TooManyRequests(
                "terminal session limit reached: "@ + decimal(limits.total as nat),
            ),
        )
    } else if sessions_of(sessions, sandbox_id) >= limits.per_sandbox {
        Some(
            AppErrorView::TooManyRequests(
                "terminal session limit reached for sandbox "@ + sandbox_id + ": "@ + decimal(
                    limits.per_sandbox as nat,
                ),
            ),
        )
    } else {
        None
    }
}

/// A session under its id.
struct SessionEntry {
    id: String,
    session: TerminalSession,
}

/// The sessions of a row of entries, by id.
spec fn table(entries: Seq<SessionEntry>) -> Map<Seq<char>, SessionView>
    decreases entries.len(),
{
    if entries.len() == 0 {
        Map::empty()
    } else {
        table(entries.drop_last()).insert(entries.last().id@, entries.last().session@)
    }
}

/// No id stands twice in a row of entries.
spec fn ids_differ(entries: Seq<SessionEntry>) -> bool {
    forall|i: int, j: int|
        0 <= i < j < entries.len() ==> (#[trigger] entries[i]).id@ != (#[trigger] entries[j]).id@
}

/// How many entries of a row belong to a sandbox.
spec fn entries_of(entries: Seq<SessionEntry>, sandbox_id: Seq<char>) -> nat
    decreases entries.len(),
{
    if entries.len() == 0 {
        0
    } else {
        entries_of(entries.drop_last(), sandbox_id) + if entries.last().session.sandbox_id@
            == sandbox_id {
            1nat
        } else {
            0nat
        }
    }
}

/// What a table holds are the entries that it was made of.
proof fn lemma_table(entries: Seq<SessionEntry>)
    requires
        ids_differ(entries),
    ensures
        table(entries).dom().finite(),
        table(entries).len() == entries.len(),
        forall|i: int|
            0 <= i < entries.len() ==> table(entries).contains_key((#[trigger] entries[i]).id@)
                && table(entries)[entries[i].id@] == entries[i].session@,
        forall|id: Seq<char>| #[trigger]
            table(entries).contains_key(id) ==> exists|i: int|
                0 <= i < entries.len() && (#[trigger] entries[i]).id@ == id,
    decreases entries.len(),
{
    if entries.len() > 0 {
        let before = entries.drop_last();
        let last = entries.last();
        assert(ids_differ(before)) by {
            assert forall|i: int, j: int| 0 <= i < j < before.len() implies (
            #[trigger] before[i]).id@ != (#[trigger] before[j]).id@ by {
                assert(before[i] == entries[i] && before[j] == entries[j]);
            }
        }
        lemma_table(before);
        assert(!table(before).contains_key(last.id@)) by {
            if table(before).contains_key(last.id@) {
                let i = choose|i: int| 0 <= i < before.len() && (#[trigger] before[i]).id@ == last.id@;
                assert(entries[i].id@ == entries[entries.len() - 1].id@);
            }
        }
        assert forall|i: int| 0 <= i < entries.len() implies table(entries).contains_key(
            (#[trigger] entries[i]).id@,
        ) && table(entries)[entries[i].id@] == entries[i].session@ by {
            if i < before.len() {
                assert(before[i] == entries[i]);
                assert(entries[i].id@ != entries[entries.len() - 1].id@);
            }
        }
        assert forall|id: Seq<char>| #[trigger] table(entries).contains_key(id) implies exists|i: int|
            0 <= i < entries.len() && (#[trigger] entries[i]).id@ == id by {
            if id == last.id@ {
                assert(entries[entries.len() - 1].id@ == id);
            } else {
                let i = choose|i: int| 0 <= i < before.len() && (#[trigger] before[i]).id@ == id;
                assert(entries[i].id@ == id);
            }
        }
    }
}

/// The entries of a sandbox are its sessions.
proof fn lemma_entries_of(entries: Seq<SessionEntry>, sandbox_id: Seq<char>)
    requires
        ids_differ(entries),
    ensures
        entries_of(entries, sandbox_id) == sessions_of(table(entries), sandbox_id),
        table(entries).dom().filter(
            |id: Seq<char>| table(entries)[id].sandbox_id == sandbox_id,
        ).finite(),
    decreases entries.len(),
{
    let all = table(entries);
    let here = all.dom().filter(|id: Seq<char>| all[id].sandbox_id == sandbox_id);
    if entries.len() == 0 {
        assert(here =~= Set::empty());
    } else {
        let before = entries.drop_last();
        let last = entries.last();
        assert forall|i: int, j: int| 0 <= i < j < before.len() implies (
        #[trigger] before[i]).id@ != (#[trigger] before[j]).id@ by {
            assert(before[i] == entries[i] && before[j] == entries[j]);
        }
        lemma_entries_of(before, sandbox_id);
        lemma_table(before);
        let old = table(before);
        let there = old.dom().filter(|id: Seq<char>| old[id].sandbox_id == sandbox_id);
        assert(!old.contains_key(last.id@)) by {
            if old.contains_key(last.id@) {
                let i = choose|i: int| 0 <= i < before.len() && (#[trigger] before[i]).id@ == last.id@;
                assert(entries[i].id@ == entries[entries.len() - 1].id@);
            }
        }
        if last.session.sandbox_id@ == sandbox_id {
            assert(here =~= there.insert(last.id@));
        } else {
            assert(here =~= there);
        }
    }
}

/// The open terminal sessions.
pub struct TerminalService {
    sessions: Vec<SessionEntry>,
}

impl View for TerminalService {
    type V = Map<Seq<char>, SessionView>;

    /// The open sessions by id.
    closed spec fn view(&self) -> Map<Seq<char>, SessionView> {
        table(self.sessions@)
    }
}

/// `chrono::Utc::now` reads the clock, here in microseconds since the Unix epoch. A clock that is
/// set to a time before the epoch makes it panic.
#[verifier::external_body]
pub(crate) fn utc_now_micros() -> (now: i64)
    ensures
        now >= 0,
{
    chrono::Utc::now().timestamp_micros()
}

impl TerminalService {
    /// No id stands twice.
    pub closed spec fn wf(&self) -> bool {
        ids_differ(self.sessions@)
    }

    /// A service without sessions.
    pub fn new() -> (service: TerminalService)
        ensures
            service.wf(),
            service@ == Map::<Seq<char>, SessionView>::empty(),
    {
        TerminalService { sessions: Vec::new() }
    }

    /// How many sessions may be open, by the setting for it; 64 without one.
    pub fn max_total_sessions(setting: Option<&str>) -> (limit: usize)
        ensures
            limit == limit_in(optional_str(setting), 64),
    {
        limit_of(setting, 64)
    }

    /// How many sessions may be open in one sandbox, by the setting for it; 8 without one.
    pub fn max_sessions_per_sandbox(setting: Option<&str>) -> (limit: usize)
        ensures
            limit == limit_in(optional_str(setting), 8),
    {
        limit_of(setting, 8)
    }

    /// Where the session with this id stands.
    fn position(&self, session_id: &str) -> (at: Option<usize>)
        requires
            self.wf(),
        ensures
            match at {
                Some(i) => i < self.sessions@.len() && self.sessions@[i as int].id@ == session_id@
                    && self@.contains_key(session_id@),
                None => !self@.contains_key(session_id@),
            },
    {
        proof {
            lemma_table(self.sessions@);
        }
        for i in 0..self.sessions.len()
            invariant
                self.wf(),
                forall|j: int| 0 <= j < i ==> (#[trigger] self.sessions@[j]).id@ != session_id@,
                forall|j: int|
                    0 <= j < self.sessions@.len() ==> self@.contains_key(
                        (#[trigger] self.sessions@[j]).id@,
                    ),
        {
            if same_text(self.sessions[i].id.as_str(), session_id) {
                return Some(i);
            }
        }
        None
    }

    /// How many sessions of a sandbox are open.
    fn count_sandbox(&self, sandbox_id: &str) -> (n: usize)
        requires
            self.wf(),
        ensures
            n == sessions_of(self@, sandbox_id@),
    {
        let mut n: usize = 0;
        for i in 0..self.sessions.len()
            invariant
                n <= i,
                n == entries_of(self.sessions@.take(i as int), sandbox_id@),
        {
            assert(self.sessions@.take(i + 1).drop_last() =~= self.sessions@.take(i as int));
            if same_text(self.sessions[i].session.sandbox_id.as_str(), sandbox_id) {
                n = n + 1;
            }
        }
        assert(self.sessions@.take(self.sessions@.len() as int) =~= self.sessions@);
        proof {
            lemma_entries_of(self.sessions@, sandbox_id@);
        }
        n
    }

    /// Puts a session under an id, in place of the one that stood there.
    fn put(&mut self, id: String, session: TerminalSession)
        requires
            old(self).wf(),
        ensures
            final(self).wf(),
            final(self)@ == old(self)@.insert(id@, session@),
    {
        let ghost before = self.sessions@;
        proof {
            lemma_table(before);
        }
        match self.position(id.as_str()) {
            Some(i) => {
                let entry = SessionEntry { id, session };
                self.sessions.set(i, entry);
                proof {
                    let now = self.sessions@;
                    assert(now == before.update(i as int, entry));
                    assert forall|a: int, b: int| 0 <= a < b < now.len() implies (
                    #[trigger] now[a]).id@ != (#[trigger] now[b]).id@ by {
                        assert(before[a].id@ != before[b].id@);
                    }
                    lemma_table(now);
                    assert(table(now) =~= table(before).insert(entry.id@, entry.session@)) by {
                        assert forall|k: Seq<char>| table(now).contains_key(k) == table(
                            before,
                        ).contains_key(k) by {
                            if table(now).contains_key(k) {
                                let j = choose|j: int|
                                    0 <= j < now.len() && (#[trigger] now[j]).id@ == k;
                                assert(before[j].id@ == k);
                            }
                            if table(before).contains_key(k) {
                                let j = choose|j: int|
                                    0 <= j < before.len() && (#[trigger] before[j]).id@ == k;
                                assert(now[j].id@ == k);
                            }
                        }
                        assert forall|k: Seq<char>| #[trigger]
                            table(now).contains_key(k) implies table(now)[k] == table(
                            before,
                        ).insert(entry.id@, entry.session@)[k] by {
                            let j = choose|j: int| 0 <= j < now.len() && (#[trigger] now[j]).id@ == k;
                            assert(before[j].id@ == k);
                            if j != i {
                                assert(now[j] == before[j]);
                                if j < i {
                                    assert(now[j].id@ != now[i as int].id@);
                                } else {
                                    assert(now[i as int].id@ != now[j].id@);
                                }
                            }
                        }
                    }
                }
            },
            None => {
                let entry = SessionEntry { id, session };
                self.sessions.push(entry);
                proof {
                    let now = self.sessions@;
                    assert(now.drop_last() =~= before);
                    assert forall|a: int, b: int| 0 <= a < b < now.len() implies (
                    #[trigger] now[a]).id@ != (#[trigger] now[b]).id@ by {
                        assert(now[a] == before[a]);
                        if b < before.len() {
                            assert(now[b] == before[b]);
                        } else {
                            assert(table(before).contains_key(before[a].id@));
                        }
                    }
                }
            },
        }
    }

    /// Opens a session at a given time, unless a limit is reached.
    pub fn register_session_at(
        &mut self,
        session_id: String,
        sandbox_id: String,
        container_id: Option<String>,
        operator_id: String,
        limits: &SessionLimits,
        started_at: i64,
    ) -> (registered: Result<(), AppError>)
        requires
            old(self).wf(),
        ensures
            final(self).wf(),
            match limit_reached(old(self)@, sandbox_id@, *limits) {
                Some(error) => registered is Err && registered->Err_0@ == error && final(self)@
                    == old(self)@,
                None => registered is Ok && final(self)@ == old(self)@.insert(
                    session_id@,
                    SessionView {
                        sandbox_id: sandbox_id@,
                        container_id: optional_chars(container_id),
                        operator_id: operator_id@,
                        started_at,
                    },
                ),
            },
    {
        proof {
            lemma_table(self.sessions@);
        }
        if self.sessions.len() >= limits.total {
            let total = decimal_of(limits.total as u64);
            let message = "terminal session limit reached: ".to_string().concat(total.as_str());
            return Err(AppError::TooManyRequests(message));
        }
        if self.count_sandbox(sandbox_id.as_str()) >= limits.per_sandbox {
            let limit = decimal_of(limits.per_sandbox as u64);
            let message = "terminal session limit reached for sandbox ".to_string().concat(
                sandbox_id.as_str(),
            ).concat(": ").concat(limit.as_str());
            return Err(AppError::TooManyRequests(message));
        }
        self.put(session_id, TerminalSession { sandbox_id, container_id, operator_id, started_at });
        Ok(())
    }

    /// Opens a session now, unless a limit is reached.
    pub fn register_session(
        &mut self,
        session_id: String,
        sandbox_id: String,
        container_id: Option<String>,
        operator_id: String,
        limits: &SessionLimits,
    ) -> (registered: Result<(), AppError>)
        requires
            old(self).wf(),
        ensures
            final(self).wf(),
            match limit_reached(old(self)@, sandbox_id@, *limits) {
                Some(error) => registered is Err && registered->Err_0@ == error && final(self)@
                    == old(self)@,
                None => registered is Ok && exists|started_at: i64|
                    started_at >= 0 && final(self)@ == #[trigger] old(self)@.insert(
                        session_id@,
                        SessionView {
                            sandbox_id: sandbox_id@,
                            container_id: optional_chars(container_id),
                            operator_id: operator_id@,
                            started_at,
                        },
                    ),
            },
    {
        let now = utc_now_micros();
        self.register_session_at(session_id, sandbox_id, container_id, operator_id, limits, now)
    }

    /// Closes a session and gives it, if it was open.
    pub fn unregister_session(&mut self, session_id: &str) -> (session: Option<TerminalSession>)
        requires
            old(self).wf(),
        ensures
            final(self).wf(),
            final(self)@ == old(self)@.remove(session_id@),
            match session {
                Some(s) => old(self)@.contains_key(session_id@) && old(self)@[session_id@] == s@,
                None => !old(self)@.contains_key(session_id@),
            },
    {
        let ghost before = self.sessions@;
        proof {
            lemma_table(before);
        }
        match self.position(session_id) {
            Some(i) => {
                let entry = self.sessions.remove(i);
                proof {
                    let now = self.sessions@;
                    assert forall|a: int| 0 <= a < now.len() implies #[trigger] now[a] == before[if a
                        < i {
                        a
                    } else {
                        a + 1
                    }] by {}
                    assert forall|a: int, b: int| 0 <= a < b < now.len() implies (
                    #[trigger] now[a]).id@ != (#[trigger] now[b]).id@ by {}
                    lemma_table(now);
                    assert(table(now) =~= table(before).remove(session_id@)) by {
                        assert forall|k: Seq<char>| table(now).contains_key(k) == table(
                            before,
                        ).remove(session_id@).contains_key(k) by {
                            if table(now).contains_key(k) {
                                let j = choose|j: int|
                                    0 <= j < now.len() && (#[trigger] now[j]).id@ == k;
                                let o = if j < i {
                                    j
                                } else {
                                    j + 1
                                };
                                assert(before[o].id@ == k);
                                if j < i {
                                    assert(before[o].id@ != before[i as int].id@);
                                } else {
                                    assert(before[i as int].id@ != before[o].id@);
                                }
                            }
                            if table(before).contains_key(k) && k != session_id@ {
                                let j = choose|j: int|
                                    0 <= j < before.len() && (#[trigger] before[j]).id@ == k;
                                let o = if j < i {
                                    j
                                } else {
                                    j - 1
                                };
                                assert(now[o].id@ == k);
                            }
                        }
                        assert forall|k: Seq<char>| #[trigger]
                            table(now).contains_key(k) implies table(now)[k] == table(before)[k] by {
                            let j = choose|j: int| 0 <= j < now.len() && (#[trigger] now[j]).id@ == k;
                            let o = if j < i {
                                j
                            } else {
                                j + 1
                            };
                            assert(before[o].id@ == k);
                        }
                    }
                }
                Some(entry.session)
            },
            None => {
                assert(self@.remove(session_id@) =~= self@);
                None
            },
        }
    }
}

/// The open sessions keep to the limits.
pub open spec fn within_limits(
    sessions: Map<Seq<char>, SessionView>,
    limits: SessionLimits,
) -> bool {
    &&& sessions.dom().finite()
    &&& sessions.len() <= limits.total
    &&& forall|sandbox_id: Seq<char>| #[trigger]
        sessions_of(sessions, sandbox_id) <= limits.per_sandbox
}

/// A service without sessions keeps to any limits.
pub proof fn law_no_sessions_are_within_limits(limits: SessionLimits)
    ensures
        within_limits(Map::empty(), limits),
{
    let none = Map::<Seq<char>, SessionView>::empty();
    assert forall|sandbox_id: Seq<char>| #[trigger]
        sessions_of(none, sandbox_id) <= limits.per_sandbox by {
        assert(none.dom().filter(|id: Seq<char>| none[id].sandbox_id == sandbox_id) =~= Set::empty());
    }
}

/// Opening a session where no limit is reached keeps the sessions within the limits, both in all
/// and in every sandbox.
pub proof fn law_register_keeps_limits(
    sessions: Map<Seq<char>, SessionView>,
    limits: SessionLimits,
    id: Seq<char>,
    session: SessionView,
)
    requires
        within_limits(sessions, limits),
        limit_reached(sessions, session.sandbox_id, limits) is None,
    ensures
        within_limits(sessions.insert(id, session), limits),
{
    let now = sessions.insert(id, session);
    assert(now.dom() =~= sessions.dom().insert(id));
    assert forall|sandbox_id: Seq<char>| #[trigger]
        sessions_of(now, sandbox_id) <= limits.per_sandbox by {
        let before = sessions.dom().filter(
            |k: Seq<char>| sessions[k].sandbox_id == sandbox_id,
        );
        let after = now.dom().filter(|k: Seq<char>| now[k].sandbox_id == sandbox_id);
        assert(sessions_of(sessions, sandbox_id) <= limits.per_sandbox);
        if session.sandbox_id == sandbox_id {
            assert(after.subset_of(before.insert(id)));
            lemma_len_subset(after, before.insert(id));
        } else {
            assert(after.subset_of(before));
            lemma_len_subset(after, before);
        }
    }
}

/// Closing a session keeps the sessions within the limits.
pub proof fn law_unregister_keeps_limits(
    sessions: Map<Seq<char>, SessionView>,
    limits: SessionLimits,
    id: Seq<char>,
)
    requires
        within_limits(sessions, limits),
    ensures
        within_limits(sessions.remove(id), limits),
{
    let now = sessions.remove(id);
    assert(now.dom().subset_of(sessions.dom()));
    lemma_len_subset(now.dom(), sessions.dom());
    assert forall|sandbox_id: Seq<char>| #[trigger]
        sessions_of(now, sandbox_id) <= limits.per_sandbox by {
        let before = sessions.dom().filter(
            |k: Seq<char>| sessions[k].sandbox_id == sandbox_id,
        );
        let after = now.dom().filter(|k: Seq<char>| now[k].sandbox_id == sandbox_id);
        assert(sessions_of(sessions, sandbox_id) <= limits.per_sandbox);
        assert(after.subset_of(before));
        lemma_len_subset(after, before);
    }
}

/// Closing a session that was opened under a new id leaves the sessions as they were.
pub proof fn law_unregister_undoes_register(
    sessions: Map<Seq<char>, SessionView>,
    id: Seq<char>,
    session: SessionView,
)
    requires
        !sessions.contains_key(id),
    ensures
        sessions.insert(id, session).remove(id) == sessions,
{
    assert(sessions.insert(id, session).remove(id) =~= sessions);
}

} // verus!
