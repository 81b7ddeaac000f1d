//! What a terminal is opened in: the sandbox, which must run, and one container of it.

use vstd::prelude::*;

use crate::error::{AppError, AppErrorView};
use crate::sessions::TerminalService;
use crate::text::{
    begins_with, contains_text, ends_in, ends_with, holds_text, lower, lowered, occurs_at,
    optional_chars, optional_str, same_text, starts_with, trim, trimmed,
};

verus! {

/// The state of a sandbox.
#[derive(Debug, Clone, Copy, PartialEq, Eq, Structural)]
pub enum SandboxState {
    Running,
    Pausing,
    Paused,
    Stopped,
    Unknown,
}

/// A container of a sandbox.
#[derive(Debug)]
pub struct SandboxContainer {
    pub name: String,
    pub container_id: String,
    pub status: String,
    pub image: String,
    pub kind: Option<String>,
    pub primary: bool,
}

/// A sandbox as far as a terminal needs to know it.
#[derive(Debug)]
pub struct SandboxDetail {
    pub state: SandboxState,
    pub envd_access_token: Option<String>,
    pub containers: Option<Vec<SandboxContainer>>,
    /// When the sandbox is due to end, in microseconds since the Unix epoch.
    pub end_at: Option<i64>,
}

/// What a terminal is opened in.
#[derive(Debug)]
pub struct ResolvedTerminalTarget {
    pub access_token: Option<String>,
    pub container_id: Option<String>,
    pub container_name: Option<String>,
    pub end_at: Option<i64>,
}

/// A `ResolvedTerminalTarget`, its strings as characters.
pub struct TargetView {
    pub access_token: Option<Seq<char>>,
    pub container_id: Option<Seq<char>>,
    pub container_name: Option<Seq<char>>,
    pub end_at: Option<i64>,
}

impl View for ResolvedTerminalTarget {
    type V = TargetView;

    open spec fn view(&self) -> TargetView {
        TargetView {
            access_token: optional_chars(self.access_token),
            container_id: optional_chars(self.container_id),
            container_name: optional_chars(self.container_name),
            end_at: self.end_at,
        }
    }
}

/// The container that a selector names: without white space around it, and none where nothing is
/// left.
pub open spec fn selector_in(selector: Option<Seq<char>>) -> Option<Seq<char>> {
    match selector {
        Some(s) => if trimmed(s).len() > 0 {
            Some(trimmed(s))
        } else {
            None
        },
        None => None,
    }
}

/// A container goes by a selector: it has that id or that name.
pub open spec fn goes_by(container: SandboxContainer, selector: Seq<char>) -> bool {
    container.container_id@ == selector || container.name@ == selector
}

/// The first container that goes by a selector.
pub open spec fn first_by(containers: Seq<SandboxContainer>, selector: Seq<char>) -> Option<
    SandboxContainer,
>
    decreases containers.len(),
{
    if containers.len() == 0 {
        None
    } else if goes_by(containers[0], selector) {
        Some(containers[0])
    } else {
        first_by(containers.skip(1), selector)
    }
}

/// A container runs, by its status in any case of its letters.
pub open spec fn is_running(status: Seq<char>) -> bool {
    lowered(status) == "running"@
}

/// The container that a request is for: the one that its selector names, or the only one.
pub open spec fn chosen_container(
    containers: Seq<SandboxContainer>,
    selector: Option<Seq<char>>,
    sandbox_id: Seq<char>,
) -> Result<SandboxContainer, AppErrorView> {
    match selector_in(selector) {
        Some(s) => match first_by(containers, s) {
            Some(container) => Ok(container),
            None => Err(
                AppErrorView::NotFound(
                    "container "@ + s + " not found in sandbox "@ + sandbox_id,
                ),
            ),
        },
        None => if containers.len() == 1 {
            Ok(containers[0])
        } else if containers.len() == 0 {
            Err(
                AppErrorView::NotFound(
                    "sandbox "@ + sandbox_id + " does not expose any containers"@,
                ),
            )
        } else {
            Err(
                AppErrorView::Conflict(
                    "sandbox "@ + sandbox_id
                        + " has multiple containers; specify one via container query parameter"@,
                ),
            )
        },
    }
}

/// The id and name of the container that a terminal is opened in: the one that the request is
/// for, where it runs.
pub open spec fn resolved_container(
    containers: Seq<SandboxContainer>,
    selector: Option<Seq<char>>,
    sandbox_id: Seq<char>,
) -> Result<(Seq<char>, Seq<char>), AppErrorView> {
    match chosen_container(containers, selector, sandbox_id) {
        Err(e) => Err(e),
        Ok(container) => if is_running(container.status@) {
            Ok((container.container_id@, container.name@))
        } else {
            Err(
                AppErrorView::Conflict(
                    "container "@ + container.container_id@ + " in sandbox "@ + sandbox_id
                        + " is not running"@,
                ),
            )
        },
    }
}

/// The containers of a sandbox; none where it does not say.
pub open spec fn containers_in(sandbox: SandboxDetail) -> Seq<SandboxContainer> {
    match sandbox.containers {
        Some(list) => list@,
        None => Seq::empty(),
    }
}

/// The token for the sandbox agent; an empty one counts as none.
pub open spec fn token_in(sandbox: SandboxDetail) -> Option<Seq<char>> {
    match sandbox.envd_access_token {
        Some(token) => if token@.len() > 0 {
            Some(token@)
        } else {
            None
        },
        None => None,
    }
}

/// What is said of a sandbox that does not run.
pub open spec fn not_running_message(sandbox_id: Seq<char>) -> Seq<char> {
    "sandbox "@ + sandbox_id + " is not running"@
}

/// What a terminal is opened in: a sandbox that runs, and a container of it that runs.
pub open spec fn resolved_target(
    sandbox: SandboxDetail,
    sandbox_id: Seq<char>,
    selector: Option<Seq<char>>,
) -> Result<TargetView, AppErrorView> {
    if sandbox.state != SandboxState::Running {
        Err(AppErrorView::Conflict(not_running_message(sandbox_id)))
    } else {
        match resolved_container(containers_in(sandbox), selector, sandbox_id) {
            Err(e) => Err(e),
            Ok((id, name)) => Ok(
                TargetView {
                    access_token: token_in(sandbox),
                    container_id: Some(id),
                    container_name: Some(name),
                    end_at: sandbox.end_at,
                },
            ),
        }
    }
}

/// The code of a conflict, by what its message says. What is said of a sandbox or of a container
/// that does not run is known by how it begins and ends, whatever they are called.
pub open spec fn conflict_code(message: Seq<char>) -> Seq<char> {
    if begins_with(message, "sandbox "@) && ends_in(message, " is not running"@) {
        "sandbox_not_running"@
    } else if begins_with(message, "container "@) && ends_in(message, " is not running"@) {
        "container_not_running"@
    } else if holds_text(message, "has multiple containers"@) {
        "container_selection_required"@
    } else if holds_text(message, "does not expose any containers"@) {
        "sandbox_has_no_containers"@
    } else if holds_text(message, "not found in sandbox"@) {
        "container_not_found"@
    } else if holds_text(message, "is not running"@) && holds_text(message, "container "@) {
        "container_not_running"@
    } else {
        "sandbox_not_running"@
    }
}

/// The code of something that is not there, by what its message says. What is said of a missing
/// container, or of a sandbox without any, is known by how it begins, whatever they are called.
pub open spec fn not_found_code(message: Seq<char>) -> Seq<char> {
    if begins_with(message, "container "@) && holds_text(message, " not found in sandbox "@) {
        "container_not_found"@
    } else if begins_with(message, "sandbox "@) && ends_in(
        message,
        " does not expose any containers"@,
    ) {
        "sandbox_has_no_containers"@
    } else {
        "sandbox_not_found"@
    }
}

/// The code that the browser is told for an error.
pub open spec fn error_code(error: AppErrorView) -> Seq<char> {
    match error {
        AppErrorView::NotFound(message) => not_found_code(message),
        AppErrorView::Unauthorized(_) => "unauthorized"@,
        AppErrorView::Conflict(message) => conflict_code(message),
        AppErrorView::TooManyRequests(_) => "session_limit"@,
        AppErrorView::BadRequest(_) => "bad_request"@,
        AppErrorView::Internal(_) => "terminal_error"@,
    }
}

/// The code that the browser is told where a sandbox could not be looked up: one that is not found
/// does not exist, in whatever words that is said.
pub open spec fn lookup_code(error: AppErrorView) -> Seq<char> {
    match error {
        AppErrorView::NotFound(_) => "sandbox_not_found"@,
        _ => error_code(error),
    }
}

/// The position of the first container that goes by a selector.
fn find_container(containers: &[SandboxContainer], selector: &str) -> (at: Option<usize>)
    ensures
        match at {
            Some(i) => i < containers@.len() && first_by(containers@, selector@) == Some(
                containers@[i as int],
            ),
            None => first_by(containers@, selector@) is None,
        },
{
    assert(containers@.skip(0) =~= containers@);
    for i in 0..containers.len()
        invariant
            first_by(containers@, selector@) == first_by(containers@.skip(i as int), selector@),
    {
        if same_text(containers[i].container_id.as_str(), selector) || same_text(
            containers[i].name.as_str(),
            selector,
        ) {
            return Some(i);
        }
        assert(containers@.skip(i as int).skip(1) =~= containers@.skip(i + 1));
    }
    None
}

impl TerminalService {
    /// Finds the container that a terminal is opened in and gives its id and name.
    pub fn resolve_terminal_container(
        containers: &[SandboxContainer],
        selector: Option<&str>,
        sandbox_id: &str,
    ) -> (resolved: Result<(String, String), AppError>)
        ensures
            match resolved {
                Ok(container) => resolved_container(
                    containers@,
                    optional_str(selector),
                    sandbox_id@,
                ) == Ok::<(Seq<char>, Seq<char>), AppErrorView>((container.0@, container.1@)),
                Err(e) => resolved_container(containers@, optional_str(selector), sandbox_id@)
                    == Err::<(Seq<char>, Seq<char>), AppErrorView>(e@),
            },
    {
        let wanted: Option<&str> = match selector {
            Some(s) => {
                let name = trim(s);
                if name.is_empty() {
                    None
                } else {
                    Some(name)
                }
            },
            None => None,
        };
        let index: usize = match wanted {
            Some(name) => match find_container(containers, name) {
                Some(i) => i,
                None => {
                    let message = "container ".to_string().concat(name).concat(
                        " not found in sandbox ",
                    ).concat(sandbox_id);
                    return Err(AppError::NotFound(message));
                },
            },
            None => if containers.len() == 1 {
                0
            } else if containers.len() == 0 {
                let message = "sandbox ".to_string().concat(sandbox_id).concat(
                    " does not expose any containers",
                );
                return Err(AppError::NotFound(message));
            } else {
                let message = "sandbox ".to_string().concat(sandbox_id).concat(
                    " has multiple containers; specify one via container query parameter",
                );
                return Err(AppError::Conflict(message));
            },
        };
        let selected = &containers[index];
        if !same_text(lower(selected.status.as_str()).as_str(), "running") {
            let message = "container ".to_string().concat(selected.container_id.as_str()).concat(
                " in sandbox ",
            ).concat(sandbox_id).concat(" is not running");
            return Err(AppError::Conflict(message));
        }
        Ok((selected.container_id.clone(), selected.name.clone()))
    }

    /// Finds what a terminal is opened in, in a sandbox.
    pub fn validate_terminal_target(
        sandbox: &SandboxDetail,
        sandbox_id: &str,
        container_selector: Option<&str>,
    ) -> (target: Result<ResolvedTerminalTarget, AppError>)
        ensures
            match target {
                Ok(t) => resolved_target(*sandbox, sandbox_id@, optional_str(container_selector))
                    == Ok::<TargetView, AppErrorView>(t@),
                Err(e) => resolved_target(*sandbox, sandbox_id@, optional_str(container_selector))
                    == Err::<TargetView, AppErrorView>(e@),
            },
    {
        if sandbox.state != SandboxState::Running {
            let message = "sandbox ".to_string().concat(sandbox_id).concat(" is not running");
            return Err(AppError::Conflict(message));
        }
        let access_token = match &sandbox.envd_access_token {
            Some(token) => if token.as_str().is_empty() {
                None
            } else {
                Some(token.clone())
            },
            None => None,
        };
        let resolved = match &sandbox.containers {
            Some(list) => Self::resolve_terminal_container(
                list.as_slice(),
                container_selector,
                sandbox_id,
            ),
            None => {
                let none: Vec<SandboxContainer> = Vec::new();
                Self::resolve_terminal_container(none.as_slice(), container_selector, sandbox_id)
            },
        };
        match resolved {
            Ok((container_id, container_name)) => Ok(
                ResolvedTerminalTarget {
                    access_token,
                    container_id: Some(container_id),
                    container_name: Some(container_name),
                    end_at: sandbox.end_at,
                },
            ),
            Err(e) => Err(e),
        }
    }

    /// The code that the browser is told for an error.
    pub fn terminal_error_code(error: &AppError) -> (code: &'static str)
        ensures
            code@ == error_code(error@),
    {
        match error {
            AppError::NotFound(message) => {
                let message = message.as_str();
                if starts_with(message, "container ") && contains_text(
                    message,
                    " not found in sandbox ",
                ) {
                    "container_not_found"
                } else if starts_with(message, "sandbox ") && ends_with(
                    message,
                    " does not expose any containers",
                ) {
                    "sandbox_has_no_containers"
                } else {
                    "sandbox_not_found"
                }
            },
            AppError::Unauthorized(_) => "unauthorized",
            AppError::Conflict(message) => {
                let message = message.as_str();
                if starts_with(message, "sandbox ") && ends_with(message, " is not running") {
                    "sandbox_not_running"
                } else if starts_with(message, "container ") && ends_with(
                    message,
                    " is not running",
                ) {
                    "container_not_running"
                } else if contains_text(message, "has multiple containers") {
                    "container_selection_required"
                } else if contains_text(message, "does not expose any containers") {
                    "sandbox_has_no_containers"
                } else if contains_text(message, "not found in sandbox") {
                    "container_not_found"
                } else if contains_text(message, "is not running") && contains_text(
                    message,
                    "container ",
                ) {
                    "container_not_running"
                } else {
                    "sandbox_not_running"
                }
            },
            AppError::TooManyRequests(_) => "session_limit",
            AppError::BadRequest(_) => "bad_request",
            AppError::Internal(_) => "terminal_error",
        }
    }

    /// The code that the browser is told where a sandbox could not be looked up.
    pub fn lookup_error_code(error: &AppError) -> (code: &'static str)
        ensures
            code@ == lookup_code(error@),
    {
        match error {
            AppError::NotFound(_) => "sandbox_not_found",
            _ => Self::terminal_error_code(error),
        }
    }
}

/// A container that a terminal is opened in is one of the sandbox, it runs, and it goes by the
/// selector where there is one.
pub proof fn law_resolved_container_runs(
    containers: Seq<SandboxContainer>,
    selector: Option<Seq<char>>,
    sandbox_id: Seq<char>,
)
    ensures
        resolved_container(containers, selector, sandbox_id) matches Ok((id, name))
            ==> exists|i: int|
            0 <= i < containers.len() && (#[trigger] containers[i]).container_id@ == id
                && containers[i].name@ == name && is_running(containers[i].status@) && (selector_in(
                selector,
            ) matches Some(s) ==> goes_by(containers[i], s)),
{
    if let Some(s) = selector_in(selector) {
        lemma_first_by(containers, s);
    } else if containers.len() == 1 {
        assert(containers[0] == containers[0]);
    }
}

/// A selector finds a container by its id and by its name: where some container goes by it, the
/// request is for one that does.
pub proof fn law_selector_finds_by_id_or_name(
    containers: Seq<SandboxContainer>,
    selector: Seq<char>,
    sandbox_id: Seq<char>,
    i: int,
)
    requires
        0 <= i < containers.len(),
        trimmed(selector).len() > 0,
        goes_by(containers[i], trimmed(selector)),
    ensures
        chosen_container(containers, Some(selector), sandbox_id) matches Ok(c) && goes_by(
            c,
            trimmed(selector),
        ),
{
    lemma_first_by(containers, trimmed(selector));
}

/// A text begins with its first part and ends in its last.
proof fn lemma_begins_and_ends(start: Seq<char>, middle: Seq<char>, end: Seq<char>)
    ensures
        begins_with(start + middle + end, start),
        ends_in(start + middle + end, end),
{
    let text = start + middle + end;
    assert(text.subrange(0, start.len() as int) =~= start);
    assert(text.subrange(text.len() - end.len(), text.len() as int) =~= end);
}

/// A text whose first character is another does not begin with a word.
proof fn lemma_begins_otherwise(text: Seq<char>, word: Seq<char>)
    requires
        text.len() > 0,
        word.len() > 0,
        text[0] != word[0],
    ensures
        !begins_with(text, word),
{
    if begins_with(text, word) {
        assert(text.subrange(0, word.len() as int)[0] == text[0]);
    }
}

/// A text whose last character is another does not end in a word.
proof fn lemma_ends_otherwise(text: Seq<char>, word: Seq<char>)
    requires
        text.len() > 0,
        word.len() > 0,
        text.last() != word.last(),
    ensures
        !ends_in(text, word),
{
    if ends_in(text, word) {
        let at = text.len() - word.len();
        assert(text.subrange(at, text.len() as int).last() == text.last());
    }
}

/// A request that names no container, for a sandbox that has several, is refused with the code
/// that asks for a choice.
pub proof fn law_several_containers_ask_for_a_choice(
    containers: Seq<SandboxContainer>,
    selector: Option<Seq<char>>,
    sandbox_id: Seq<char>,
)
    requires
        containers.len() > 1,
        selector_in(selector) is None,
    ensures
        resolved_container(containers, selector, sandbox_id) matches Err(e) && error_code(e)
            == "container_selection_required"@,
{
    let head = "sandbox "@ + sandbox_id;
    let start: int = head.len() as int + 1;
    let tail = " has multiple containers; specify one via container query parameter"@;
    let phrase = "has multiple containers"@;
    reveal_strlit("sandbox ");
    reveal_strlit("container ");
    reveal_strlit(" is not running");
    reveal_strlit(" has multiple containers; specify one via container query parameter");
    reveal_strlit("has multiple containers");
    assert(tail.subrange(1, 24) =~= phrase);
    let message = head + tail;
    assert(message.subrange(start, start + 23) =~= tail.subrange(1, 24));
    assert(occurs_at(message, phrase, start));
    lemma_ends_otherwise(message, " is not running"@);
}

/// A selector that no container goes by is answered with the code for a missing container.
pub proof fn law_missing_containers_are_named_so(
    containers: Seq<SandboxContainer>,
    selector: Option<Seq<char>>,
    sandbox_id: Seq<char>,
)
    requires
        selector_in(selector) matches Some(s) && first_by(containers, s) is None,
    ensures
        resolved_container(containers, selector, sandbox_id) matches Err(e) && error_code(e)
            == "container_not_found"@,
{
    let name = selector_in(selector)->Some_0;
    let head = "container "@ + name;
    let phrase = " not found in sandbox "@;
    let message = head + phrase + sandbox_id;
    lemma_begins_and_ends("container "@, name + phrase, sandbox_id);
    assert(message =~= "container "@ + (name + phrase) + sandbox_id);
    let start: int = head.len() as int;
    assert(message.subrange(start, start + phrase.len()) =~= phrase);
    assert(occurs_at(message, phrase, start));
}

/// A sandbox without containers is answered with the code that says so, where none is asked for by
/// name.
pub proof fn law_empty_sandboxes_are_named_so(
    containers: Seq<SandboxContainer>,
    selector: Option<Seq<char>>,
    sandbox_id: Seq<char>,
)
    requires
        containers.len() == 0,
        selector_in(selector) is None,
    ensures
        resolved_container(containers, selector, sandbox_id) matches Err(e) && error_code(e)
            == "sandbox_has_no_containers"@,
{
    reveal_strlit("sandbox ");
    reveal_strlit("container ");
    let message = "sandbox "@ + sandbox_id + " does not expose any containers"@;
    lemma_begins_and_ends("sandbox "@, sandbox_id, " does not expose any containers"@);
    lemma_begins_otherwise(message, "container "@);
}

/// A request for a sandbox that does not run is refused with the code that says so.
pub proof fn law_stopped_sandboxes_are_named_so(
    sandbox: SandboxDetail,
    sandbox_id: Seq<char>,
    selector: Option<Seq<char>>,
)
    requires
        sandbox.state != SandboxState::Running,
    ensures
        resolved_target(sandbox, sandbox_id, selector) matches Err(e) && error_code(e)
            == "sandbox_not_running"@,
{
    lemma_begins_and_ends("sandbox "@, sandbox_id, " is not running"@);
}

/// A request for a container that does not run is refused with the code that says so.
pub proof fn law_stopped_containers_are_named_so(
    containers: Seq<SandboxContainer>,
    selector: Option<Seq<char>>,
    sandbox_id: Seq<char>,
    container: SandboxContainer,
)
    requires
        chosen_container(containers, selector, sandbox_id) == Ok::<
            SandboxContainer,
            AppErrorView,
        >(container),
        !is_running(container.status@),
    ensures
        resolved_container(containers, selector, sandbox_id) matches Err(e) && error_code(e)
            == "container_not_running"@,
{
    let middle = container.container_id@ + " in sandbox "@ + sandbox_id;
    let message = "container "@ + container.container_id@ + " in sandbox "@ + sandbox_id
        + " is not running"@;
    reveal_strlit("sandbox ");
    reveal_strlit("container ");
    assert(message =~= "container "@ + middle + " is not running"@);
    lemma_begins_and_ends("container "@, middle, " is not running"@);
    lemma_begins_otherwise(message, "sandbox "@);
}

/// The first container that goes by a selector is one of the row.
proof fn lemma_first_by(containers: Seq<SandboxContainer>, selector: Seq<char>)
    ensures
        first_by(containers, selector) matches Some(c) ==> exists|i: int|
            0 <= i < containers.len() && #[trigger] containers[i] == c && goes_by(c, selector)
                && forall|j: int| 0 <= j < i ==> !goes_by(#[trigger] containers[j], selector),
        first_by(containers, selector) is None ==> forall|j: int|
            0 <= j < containers.len() ==> !goes_by(#[trigger] containers[j], selector),
    decreases containers.len(),
{
    if containers.len() > 0 && !goes_by(containers[0], selector) {
        let later = containers.skip(1);
        lemma_first_by(later, selector);
        if let Some(c) = first_by(containers, selector) {
            let i = choose|i: int|
                0 <= i < later.len() && #[trigger] later[i] == c && forall|j: int|
                    0 <= j < i ==> !goes_by(#[trigger] later[j], selector);
            assert(containers[i + 1] == c);
            assert forall|j: int| 0 <= j < i + 1 implies !goes_by(
                #[trigger] containers[j],
                selector,
            ) by {
                if j > 0 {
                    assert(later[j - 1] == containers[j]);
                }
            }
        } else {
            assert forall|j: int| 0 <= j < containers.len() implies !goes_by(
                #[trigger] containers[j],
                selector,
            ) by {
                if j > 0 {
                    assert(later[j - 1] == containers[j]);
                }
            }
        }
    } else if containers.len() > 0 {
        assert(containers[0] == containers[0]);
    }
}

} // verus!
