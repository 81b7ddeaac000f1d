//! Laws of the list of sessions: how many may be open, and what is counted.

use vstd::prelude::*;

use crate::error::AppErrorView;
use crate::laws::text::{law_decimal_is_read_back, law_numbers};
use crate::sessions::{
    limit_in, limit_reached, sessions_of, within_limits, SessionLimits, SessionView,
};
use crate::text::{decimal, number_in};

verus! {

/// A limit is the number that its setting writes; a setting that is missing, writes no number or
/// one that does not fit leaves the default.
pub proof fn law_limits_are_what_is_set(n: nat, setting: Seq<char>, default: nat)
    ensures
        limit_in(None, default) == default,
        n <= usize::MAX ==> limit_in(Some(decimal(n)), default) == n,
        number_in(setting) matches Some(m) && m <= usize::MAX ==> limit_in(
            Some(setting),
            default,
        ) == number_in(setting)->Some_0,
        number_in(setting) is None ==> limit_in(Some(setting), default) == default,
        number_in(setting) matches Some(m) && m > usize::MAX ==> limit_in(Some(setting), default)
            == default,
{
    law_decimal_is_read_back(n);
    law_numbers(setting, usize::MAX as nat);
    law_numbers(decimal(n), usize::MAX as nat);
}

/// Only sessions of a sandbox count for it: a new one adds one to its own sandbox and nothing to
/// any other.
pub proof fn law_sessions_count_for_their_sandbox(
    sessions: Map<Seq<char>, SessionView>,
    id: Seq<char>,
    session: SessionView,
    sandbox_id: Seq<char>,
)
    requires
        sessions.dom().finite(),
        !sessions.contains_key(id),
    ensures
        sessions_of(Map::empty(), sandbox_id) == 0,
        session.sandbox_id == sandbox_id ==> sessions_of(sessions.insert(id, session), sandbox_id)
            == sessions_of(sessions, sandbox_id) + 1,
        session.sandbox_id != sandbox_id ==> sessions_of(sessions.insert(id, session), sandbox_id)
            == sessions_of(sessions, sandbox_id),
{
    let none = Map::<Seq<char>, SessionView>::empty();
    assert(none.dom().filter(|k: Seq<char>| none[k].sandbox_id == sandbox_id) =~= Set::empty());
    let now = sessions.insert(id, session);
    let before = sessions.dom().filter(|k: Seq<char>| sessions[k].sandbox_id == sandbox_id);
    let after = now.dom().filter(|k: Seq<char>| now[k].sandbox_id == sandbox_id);
    if session.sandbox_id == sandbox_id {
        assert(after =~= before.insert(id));
    } else {
        assert(after =~= before);
    }
}

/// A session is refused exactly where as many are open as may be, in all or in its sandbox. The
/// limit on all comes first, and the message says which limit it was and how high.
pub proof fn law_limits_refuse_when_reached(
    sessions: Map<Seq<char>, SessionView>,
    sandbox_id: Seq<char>,
    limits: SessionLimits,
)
    ensures
        limit_reached(sessions, sandbox_id, limits) is None <==> sessions.len() < limits.total
            && sessions_of(sessions, sandbox_id) < limits.per_sandbox,
        sessions.len() >= limits.total ==> limit_reached(sessions, sandbox_id, limits) == Some(
            AppErrorView::TooManyRequests(
                "terminal session limit reached: "@ + decimal(limits.total as nat),
            ),
        ),
        sessions.len() < limits.total && sessions_of(sessions, sandbox_id) >= limits.per_sandbox
            ==> limit_reached(sessions, sandbox_id, limits) == Some(
            AppErrorView::TooManyRequests(
                "terminal session limit reached for sandbox "@ + sandbox_id + ": "@ + decimal(
                    limits.per_sandbox as nat,
                ),
            ),
        ),
{
}

/// Sessions are within the limits where no more are open than may be, in all and in every sandbox.
pub proof fn law_within_limits(sessions: Map<Seq<char>, SessionView>, limits: SessionLimits)
    requires
        sessions.dom().finite(),
    ensures
        within_limits(sessions, limits) <==> sessions.len() <= limits.total && forall|
            sandbox_id: Seq<char>,
        | #[trigger]
            sessions_of(sessions, sandbox_id) <= limits.per_sandbox,
{
}

} // verus!
