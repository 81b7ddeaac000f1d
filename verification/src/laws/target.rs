//! Laws of the choice of a container, and of what a refusal is called.

use vstd::prelude::*;

use crate::error::AppErrorView;
use crate::laws::text::{
    is_blank, is_tight, law_beginnings_and_ends, law_holds_text, law_trimmed_takes_off_blanks,
};
use crate::target::{
    error_code, first_by, goes_by, lookup_code, resolved_container, resolved_target,
    SandboxContainer, SandboxDetail, SandboxState,
};
use crate::text::{begins_with, ends_in, holds_text, lowered};

verus! {

proof fn lemma_first_by(containers: Seq<SandboxContainer>, wanted: Seq<char>) -> (at: int)
    ensures
        match first_by(containers, wanted) {
            Some(c) => 0 <= at < containers.len() && containers[at] == c && (
            containers[at].container_id@ == wanted || containers[at].name@ == wanted) && forall|
                j: int,
            |
                0 <= j < at ==> (#[trigger] containers[j]).container_id@ != wanted
                    && containers[j].name@ != wanted,
            None => forall|j: int|
                0 <= j < containers.len() ==> (#[trigger] containers[j]).container_id@ != wanted
                    && containers[j].name@ != wanted,
        },
    decreases containers.len(),
{
    if containers.len() == 0 {
        0
    } else if goes_by(containers[0], wanted) {
        0
    } else {
        let later = containers.skip(1);
        let at = lemma_first_by(later, wanted);
        assert forall|j: int| 0 <= j < containers.len() && (first_by(containers, wanted) is None
            || j < at + 1) implies (#[trigger] containers[j]).container_id@ != wanted
            && containers[j].name@ != wanted by {
            if j > 0 {
                assert(later[j - 1] == containers[j]);
            }
        }
        at + 1
    }
}

/// A selector picks by the whole id or the whole name: what it resolves to has the selector,
/// without the white space around it, as its id or as its name, and no container before it has.
pub proof fn law_selectors_pick_by_the_whole_name(
    containers: Seq<SandboxContainer>,
    before: Seq<char>,
    wanted: Seq<char>,
    after: Seq<char>,
    sandbox_id: Seq<char>,
)
    requires
        is_blank(before),
        is_blank(after),
        is_tight(wanted),
        wanted.len() > 0,
    ensures
        resolved_container(containers, Some(before + wanted + after), sandbox_id) matches Ok(
            (id, name),
        ) ==> {
            &&& id == wanted || name == wanted
            &&& exists|i: int|
                {
                    &&& 0 <= i < containers.len()
                    &&& (#[trigger] containers[i]).container_id@ == id
                    &&& containers[i].name@ == name
                    &&& lowered(containers[i].status@) == "running"@
                    &&& forall|j: int|
                        0 <= j < i ==> (#[trigger] containers[j]).container_id@ != wanted
                            && containers[j].name@ != wanted
                }
        },
{
    law_trimmed_takes_off_blanks(before, wanted, after);
    let at = lemma_first_by(containers, wanted);
    if resolved_container(containers, Some(before + wanted + after), sandbox_id) is Ok {
        assert(containers[at].container_id@ == containers[at].container_id@);
    }
}

/// The first container that has a selector as its id or name is the one that is opened, where it
/// runs; where it does not, that is what is said.
pub proof fn law_selectors_find_the_first(
    containers: Seq<SandboxContainer>,
    before: Seq<char>,
    wanted: Seq<char>,
    after: Seq<char>,
    sandbox_id: Seq<char>,
    i: int,
)
    requires
        is_blank(before),
        is_blank(after),
        is_tight(wanted),
        wanted.len() > 0,
        0 <= i < containers.len(),
        containers[i].container_id@ == wanted || containers[i].name@ == wanted,
        forall|j: int|
            0 <= j < i ==> (#[trigger] containers[j]).container_id@ != wanted
                && containers[j].name@ != wanted,
    ensures
        resolved_container(containers, Some(before + wanted + after), sandbox_id) == if lowered(
            containers[i].status@,
        ) == "running"@ {
            Ok::<(Seq<char>, Seq<char>), AppErrorView>(
                (containers[i].container_id@, containers[i].name@),
            )
        } else {
            Err::<(Seq<char>, Seq<char>), AppErrorView>(
                AppErrorView::Conflict(
                    "container "@ + containers[i].container_id@ + " in sandbox "@ + sandbox_id
                        + " is not running"@,
                ),
            )
        },
{
    law_trimmed_takes_off_blanks(before, wanted, after);
    let at = lemma_first_by(containers, wanted);
    if first_by(containers, wanted) is Some {
        if at < i {
            assert(containers[at].container_id@ != wanted && containers[at].name@ != wanted);
        } else if at > i {
            assert(containers[i].container_id@ != wanted && containers[i].name@ != wanted);
        }
    } else {
        assert(containers[i].container_id@ != wanted && containers[i].name@ != wanted);
    }
}

/// Where no container has the selector as its id or its name, none is found.
pub proof fn law_unknown_selectors_find_nothing(
    containers: Seq<SandboxContainer>,
    before: Seq<char>,
    wanted: Seq<char>,
    after: Seq<char>,
    sandbox_id: Seq<char>,
)
    requires
        is_blank(before),
        is_blank(after),
        is_tight(wanted),
        wanted.len() > 0,
        forall|j: int|
            0 <= j < containers.len() ==> (#[trigger] containers[j]).container_id@ != wanted
                && containers[j].name@ != wanted,
    ensures
        resolved_container(containers, Some(before + wanted + after), sandbox_id) == Err::<
            (Seq<char>, Seq<char>),
            AppErrorView,
        >(
            AppErrorView::NotFound(
                "container "@ + wanted + " not found in sandbox "@ + sandbox_id,
            ),
        ),
{
    law_trimmed_takes_off_blanks(before, wanted, after);
    let at = lemma_first_by(containers, wanted);
    if first_by(containers, wanted) is Some {
        assert(containers[at].container_id@ != wanted && containers[at].name@ != wanted);
    }
}

/// Without a selector, or with a blank one, the only container is opened, where it runs; none or
/// several are refused.
pub proof fn law_the_only_container_is_opened(
    containers: Seq<SandboxContainer>,
    blank: Seq<char>,
    sandbox_id: Seq<char>,
)
    requires
        is_blank(blank),
    ensures
        resolved_container(containers, Some(blank), sandbox_id) == resolved_container(
            containers,
            None,
            sandbox_id,
        ),
        containers.len() == 1 && lowered(containers[0].status@) == "running"@
            ==> resolved_container(containers, None, sandbox_id) == Ok::<
            (Seq<char>, Seq<char>),
            AppErrorView,
        >((containers[0].container_id@, containers[0].name@)),
        containers.len() == 1 && lowered(containers[0].status@) != "running"@
            ==> resolved_container(containers, None, sandbox_id) == Err::<
            (Seq<char>, Seq<char>),
            AppErrorView,
        >(
            AppErrorView::Conflict(
                "container "@ + containers[0].container_id@ + " in sandbox "@ + sandbox_id
                    + " is not running"@,
            ),
        ),
        containers.len() == 0 ==> resolved_container(containers, None, sandbox_id) == Err::<
            (Seq<char>, Seq<char>),
            AppErrorView,
        >(
            AppErrorView::NotFound(
                "sandbox "@ + sandbox_id + " does not expose any containers"@,
            ),
        ),
        containers.len() > 1 ==> resolved_container(containers, None, sandbox_id) == Err::<
            (Seq<char>, Seq<char>),
            AppErrorView,
        >(
            AppErrorView::Conflict(
                "sandbox "@ + sandbox_id
                    + " has multiple containers; specify one via container query parameter"@,
            ),
        ),
{
    law_trimmed_takes_off_blanks(blank, Seq::empty(), Seq::empty());
    assert(blank + Seq::empty() + Seq::empty() =~= blank);
}

/// A target is the container that is resolved in a sandbox that runs, with its id and name, the
/// token of the sandbox unless that is empty, and the deadline of the sandbox. A sandbox that does
/// not run is refused before its containers are looked at.
pub proof fn law_targets_are_of_the_sandbox(
    sandbox: SandboxDetail,
    sandbox_id: Seq<char>,
    selector: Option<Seq<char>>,
)
    ensures
        sandbox.state != SandboxState::Running ==> (resolved_target(sandbox, sandbox_id, selector)
            matches Err(e) && e == AppErrorView::Conflict(
            "sandbox "@ + sandbox_id + " is not running"@,
        )),
        sandbox.state == SandboxState::Running ==> ({
            let list = match sandbox.containers {
                Some(l) => l@,
                None => Seq::<SandboxContainer>::empty(),
            };
            match resolved_container(list, selector, sandbox_id) {
                Err(e) => resolved_target(sandbox, sandbox_id, selector) matches Err(f) && f == e,
                Ok((id, name)) => {
                    &&& resolved_target(sandbox, sandbox_id, selector) matches Ok(target)
                    &&& target.container_id == Some(id)
                    &&& target.container_name == Some(name)
                    &&& target.end_at == sandbox.end_at
                    &&& match sandbox.envd_access_token {
                        Some(t) => if t@.len() == 0 {
                            target.access_token is None
                        } else {
                            target.access_token == Some(t@)
                        },
                        None => target.access_token is None,
                    }
                },
            }
        }),
{
}

/// Each kind of error has its code, whatever its message.
pub proof fn law_codes_of_other_errors(message: Seq<char>)
    ensures
        error_code(AppErrorView::Unauthorized(message)) == "unauthorized"@,
        error_code(AppErrorView::TooManyRequests(message)) == "session_limit"@,
        error_code(AppErrorView::BadRequest(message)) == "bad_request"@,
        error_code(AppErrorView::Internal(message)) == "terminal_error"@,
        lookup_code(AppErrorView::NotFound(message)) == "sandbox_not_found"@,
        lookup_code(AppErrorView::Unauthorized(message)) == "unauthorized"@,
        lookup_code(AppErrorView::TooManyRequests(message)) == "session_limit"@,
        lookup_code(AppErrorView::BadRequest(message)) == "bad_request"@,
        lookup_code(AppErrorView::Internal(message)) == "terminal_error"@,
        lookup_code(AppErrorView::Conflict(message)) == error_code(
            AppErrorView::Conflict(message),
        ),
{
}

/// The code of a conflict goes by the words in its message, in this order. What begins with the
/// sandbox or the container and ends in that it does not run is of that alone.
pub proof fn law_codes_of_conflicts(before: Seq<char>, after: Seq<char>, message: Seq<char>)
    ensures
        error_code(AppErrorView::Conflict("sandbox "@ + before + " is not running"@))
            == "sandbox_not_running"@,
        error_code(AppErrorView::Conflict("container "@ + before + " is not running"@))
            == "container_not_running"@,
        !ends_in(message, " is not running"@) || !(begins_with(message, "sandbox "@)
            || begins_with(message, "container "@)) ==> {
            let code = error_code(AppErrorView::Conflict(message));
            if message == before + "has multiple containers"@ + after {
                code == "container_selection_required"@
            } else if holds_text(message, "has multiple containers"@) {
                true
            } else if message == before + "does not expose any containers"@ + after {
                code == "sandbox_has_no_containers"@
            } else if holds_text(message, "does not expose any containers"@) {
                true
            } else if message == before + "not found in sandbox"@ + after {
                code == "container_not_found"@
            } else if holds_text(message, "not found in sandbox"@) {
                true
            } else if holds_text(message, "is not running"@) && holds_text(
                message,
                "container "@,
            ) {
                code == "container_not_running"@
            } else {
                code == "sandbox_not_running"@
            }
        },
{
    reveal_strlit("sandbox ");
    reveal_strlit("container ");
    let stopped = "sandbox "@ + before + " is not running"@;
    law_beginnings_and_ends("sandbox "@ + before, " is not running"@, stopped);
    assert(stopped =~= "sandbox "@ + (before + " is not running"@));
    law_beginnings_and_ends("sandbox "@, before + " is not running"@, stopped);
    let halted = "container "@ + before + " is not running"@;
    law_beginnings_and_ends("container "@ + before, " is not running"@, halted);
    assert(halted =~= "container "@ + (before + " is not running"@));
    law_beginnings_and_ends("container "@, before + " is not running"@, halted);
    assert(!begins_with(halted, "sandbox "@)) by {
        if begins_with(halted, "sandbox "@) {
            assert(halted.subrange(0, 8)[0] == 'c');
        }
    }
    law_holds_text(before, "has multiple containers"@, after, message);
    law_holds_text(before, "does not expose any containers"@, after, message);
    law_holds_text(before, "not found in sandbox"@, after, message);
}

/// The code of something that is not there: a container only where the message begins with one and
/// says in which sandbox it is missing, all containers only where it begins with the sandbox and
/// ends in that, and the sandbox otherwise.
pub proof fn law_codes_of_what_is_not_there(
    middle: Seq<char>,
    after: Seq<char>,
    message: Seq<char>,
)
    ensures
        error_code(
            AppErrorView::NotFound("container "@ + middle + " not found in sandbox "@ + after),
        ) == "container_not_found"@,
        error_code(
            AppErrorView::NotFound("sandbox "@ + middle + " does not expose any containers"@),
        ) == "sandbox_has_no_containers"@,
        !begins_with(message, "container "@) && !begins_with(message, "sandbox "@) ==> error_code(
            AppErrorView::NotFound(message),
        ) == "sandbox_not_found"@,
        !holds_text(message, " not found in sandbox "@) && !ends_in(
            message,
            " does not expose any containers"@,
        ) ==> error_code(AppErrorView::NotFound(message)) == "sandbox_not_found"@,
{
    reveal_strlit("sandbox ");
    reveal_strlit("container ");
    let missing = "container "@ + middle + " not found in sandbox "@ + after;
    law_holds_text("container "@ + middle, " not found in sandbox "@, after, missing);
    assert(missing =~= "container "@ + (middle + " not found in sandbox "@ + after));
    law_beginnings_and_ends("container "@, middle + " not found in sandbox "@ + after, missing);
    let none = "sandbox "@ + middle + " does not expose any containers"@;
    law_beginnings_and_ends("sandbox "@ + middle, " does not expose any containers"@, none);
    assert(none =~= "sandbox "@ + (middle + " does not expose any containers"@));
    law_beginnings_and_ends("sandbox "@, middle + " does not expose any containers"@, none);
    assert(!begins_with(none, "container "@)) by {
        if begins_with(none, "container "@) {
            assert(none.subrange(0, 10)[0] == 's');
        }
    }
}

} // verus!
