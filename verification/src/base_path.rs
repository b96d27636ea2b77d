//! Finding the base path: the one directory below which every managed path
//! lies.
//!
//! Finding it takes work that only the host can do: asking where the
//! executable is, looking at the disk, creating directories, resolving links.
//! This module holds the decisions between those steps. A [`BasePathState`]
//! says what the host is to do next; the host does it and reports a
//! [`BasePathEvent`]; [`BasePathState::advance`] decides what follows. The run
//! ends in `Finished`, with the base path or with the reason why there is none.
//! A base path is never the root of the file system, and it is a directory: a
//! candidate that exists is taken up only after the host has said that it is
//! one, and one that does not exist only after the host has created it.

use crate::error::{PathFault, PathRegistrationError};
use crate::structure::{is_separator, join, join_paths};
use crate::text::{chars_of, string_of, text_view};
use vstd::prelude::*;
use vstd::string::StringExecFns;

verus! {

/// `s` without the separators at its end.
pub open spec fn strip_separators(s: Seq<char>) -> Seq<char>
    decreases s.len(),
{
    if s.len() > 0 && is_separator(s.last()) {
        strip_separators(s.drop_last())
    } else {
        s
    }
}

/// `s` without the run of other characters than the separator at its end.
pub open spec fn strip_name(s: Seq<char>) -> Seq<char>
    decreases s.len(),
{
    if s.len() > 0 && !is_separator(s.last()) {
        strip_name(s.drop_last())
    } else {
        s
    }
}

/// The directory that holds `path`. Separators at the end of `path` do not
/// count. A path that is empty or made of separators only, which is to say the
/// root, has no parent. The parent of a name directly below the root is the
/// root, and the parent of a lone name is the empty path.
pub open spec fn parent(path: Seq<char>) -> Option<Seq<char>> {
    let body = strip_separators(path);
    if body.len() == 0 {
        None
    } else {
        let head = strip_name(body);
        let dir = strip_separators(head);
        if dir.len() == 0 && head.len() > 0 {
            Some(seq!['/'])
        } else {
            Some(dir)
        }
    }
}

/// The directory to try as base path: the directory of the executable, or the
/// override set below it. An override that is rooted stands for itself.
pub open spec fn base_candidate(exe_dir: Seq<char>, override_path: Option<Seq<char>>) -> Seq<
    char,
> {
    match override_path {
        Some(p) => join(exe_dir, p),
        None => exe_dir,
    }
}

/// The text that stands for the path of the executable while that path is not
/// known.
pub open spec fn unknown_executable() -> Seq<char> {
    "<executable_path>"@
}

/// The cause given when the executable lies in no directory.
pub open spec fn no_parent_cause() -> Seq<char> {
    "Executable has no parent directory"@
}

/// A state of the search, with every text as a sequence of characters.
pub ghost enum StateView {
    FindExecutable { override_path: Option<Seq<char>> },
    CheckExists { candidate: Seq<char> },
    CheckIsDirectory { candidate: Seq<char> },
    CreateDir { candidate: Seq<char> },
    Canonicalize { candidate: Seq<char> },
    Finished(Result<Seq<char>, PathFault>),
}

/// A report of the host, with every text as a sequence of characters.
pub ghost enum EventView {
    ExecutablePath(Seq<char>),
    ExecutablePathFailed(Seq<char>),
    Exists(bool),
    IsDirectory(bool),
    Created,
    CreateFailed(Seq<char>),
    Canonical(Seq<char>),
    CanonicalFailed(Seq<char>),
}

/// The state in which the search begins. An override is taken up only if it is
/// to be honoured.
pub open spec fn start_state(override_path: Option<Seq<char>>, honor_override: bool) -> StateView {
    StateView::FindExecutable {
        override_path: if honor_override {
            override_path
        } else {
            None
        },
    }
}

/// The state that follows `state` when the host reports `event`. A report that
/// does not answer what the state asks for changes nothing.
pub open spec fn next_state(state: StateView, event: EventView) -> StateView {
    match (state, event) {
        (StateView::FindExecutable { override_path }, EventView::ExecutablePath(exe)) => {
            match parent(exe) {
                Some(dir) => StateView::CheckExists {
                    candidate: base_candidate(dir, override_path),
                },
                None => StateView::Finished(
                    Err(
                        PathFault::BasePathCanonicalizationFailed(
                            unknown_executable(),
                            no_parent_cause(),
                        ),
                    ),
                ),
            }
        },
        (StateView::FindExecutable { .. }, EventView::ExecutablePathFailed(cause)) => {
            StateView::Finished(
                Err(PathFault::BasePathCanonicalizationFailed(unknown_executable(), cause)),
            )
        },
        (StateView::CheckExists { candidate }, EventView::Exists(found)) => if found {
            StateView::CheckIsDirectory { candidate }
        } else {
            StateView::CreateDir { candidate }
        },
        (StateView::CheckIsDirectory { candidate }, EventView::IsDirectory(is_directory)) => {
            if is_directory {
                StateView::Canonicalize { candidate }
            } else {
                StateView::Finished(Err(PathFault::BasePathNotADirectory(candidate)))
            }
        },
        (StateView::CreateDir { candidate }, EventView::Created) => StateView::Canonicalize {
            candidate,
        },
        (StateView::CreateDir { candidate }, EventView::CreateFailed(cause)) => {
            StateView::Finished(Err(PathFault::CreateDirFailed(candidate, cause)))
        },
        (StateView::Canonicalize { .. }, EventView::Canonical(path)) => {
            if parent(path) is None {
                StateView::Finished(Err(PathFault::BasePathIsRoot(path)))
            } else {
                StateView::Finished(Ok(path))
            }
        },
        (StateView::Canonicalize { candidate }, EventView::CanonicalFailed(cause)) => {
            StateView::Finished(Err(PathFault::BasePathCanonicalizationFailed(candidate, cause)))
        },
        _ => state,
    }
}

/// Whether a state keeps the promise of this module: a base path that was
/// found has a parent, so it is not the root.
pub open spec fn keeps_off_root(state: StateView) -> bool {
    state matches StateView::Finished(Ok(path)) ==> parent(path) is Some
}

/// The state that a search has reached from `state` after the host has made
/// the reports `events`, one after the other.
pub open spec fn state_after(state: StateView, events: Seq<EventView>) -> StateView
    decreases events.len(),
{
    if events.len() == 0 {
        state
    } else {
        next_state(state_after(state, events.drop_last()), events.last())
    }
}

/// Whether a report vouches for the candidate of a state as a directory: the
/// state asked whether the candidate is a directory and the host said that it
/// is, or the state asked for the candidate to be created as a directory and
/// the host said that it was.
pub open spec fn vouches_for(state: StateView, event: EventView, candidate: Seq<char>) -> bool {
    ||| state == (StateView::CheckIsDirectory { candidate }) && event == EventView::IsDirectory(
        true,
    )
    ||| state == (StateView::CreateDir { candidate }) && event == EventView::Created
}

/// Whether the report at position `at` of a search vouches for `candidate` as
/// a directory.
pub open spec fn vouched_at(
    start: StateView,
    events: Seq<EventView>,
    at: int,
    candidate: Seq<char>,
) -> bool {
    0 <= at < events.len() && vouches_for(state_after(start, events.take(at)), events[at], candidate)
}

/// Whether a state keeps the other promise of this module, given the reports
/// that led to it: a candidate is brought into canonical form, and a base path
/// is found, only after a report has vouched for the candidate as a directory;
/// the base path is then the canonical path that the host gave for that
/// candidate.
pub open spec fn keeps_to_directories(start: StateView, events: Seq<EventView>) -> bool {
    match state_after(start, events) {
        StateView::Canonicalize { candidate } => exists|at: int|
            vouched_at(start, events, at, candidate),
        StateView::Finished(Ok(path)) => exists|at: int, to: int, candidate: Seq<char>|
            {
                &&& #[trigger] vouched_at(start, events, at, candidate)
                &&& at < to < events.len()
                &&& state_after(start, events.take(to)) == (StateView::Canonicalize { candidate })
                &&& #[trigger] events[to] == EventView::Canonical(path)
            },
        _ => true,
    }
}

/// Where the search for the base path stands, and with it what the host is to
/// do next.
#[derive(Debug, PartialEq, Eq)]
pub enum BasePathState {
    /// The host is to find the path of the running executable.
    FindExecutable { override_path: Option<String> },
    /// The host is to say whether `candidate` exists.
    CheckExists { candidate: String },
    /// The host is to say whether `candidate`, which exists, is a directory.
    CheckIsDirectory { candidate: String },
    /// The host is to create `candidate` and every missing directory above it.
    CreateDir { candidate: String },
    /// The host is to bring `candidate` into canonical form: absolute, with
    /// every link resolved.
    Canonicalize { candidate: String },
    /// The search is over.
    Finished(Result<String, PathRegistrationError>),
}

/// What the host reports after it did what a state asked for.
#[derive(Debug, Clone, PartialEq, Eq)]
pub enum BasePathEvent {
    /// The running executable is at this path.
    ExecutablePath(String),
    /// The path of the executable could not be found, for this cause.
    ExecutablePathFailed(String),
    /// Whether the candidate exists.
    Exists(bool),
    /// Whether the candidate is a directory.
    IsDirectory(bool),
    /// The candidate was created.
    Created,
    /// The candidate could not be created, for this cause.
    CreateFailed(String),
    /// The canonical form of the candidate.
    Canonical(String),
    /// The candidate could not be brought into canonical form, for this cause.
    CanonicalFailed(String),
}

impl View for BasePathState {
    type V = StateView;

    open spec fn view(&self) -> StateView {
        match *self {
            BasePathState::FindExecutable { override_path } => StateView::FindExecutable {
                override_path: text_view(override_path),
            },
            BasePathState::CheckExists { candidate } => StateView::CheckExists {
                candidate: candidate@,
            },
            BasePathState::CheckIsDirectory { candidate } => StateView::CheckIsDirectory {
                candidate: candidate@,
            },
            BasePathState::CreateDir { candidate } => StateView::CreateDir {
                candidate: candidate@,
            },
            BasePathState::Canonicalize { candidate } => StateView::Canonicalize {
                candidate: candidate@,
            },
            BasePathState::Finished(Ok(path)) => StateView::Finished(Ok(path@)),
            BasePathState::Finished(Err(e)) => StateView::Finished(Err(e@)),
        }
    }
}

impl View for BasePathEvent {
    type V = EventView;

    open spec fn view(&self) -> EventView {
        match *self {
            BasePathEvent::ExecutablePath(p) => EventView::ExecutablePath(p@),
            BasePathEvent::ExecutablePathFailed(cause) => EventView::ExecutablePathFailed(cause@),
            BasePathEvent::Exists(found) => EventView::Exists(found),
            BasePathEvent::IsDirectory(is_directory) => EventView::IsDirectory(is_directory),
            BasePathEvent::Created => EventView::Created,
            BasePathEvent::CreateFailed(cause) => EventView::CreateFailed(cause@),
            BasePathEvent::Canonical(p) => EventView::Canonical(p@),
            BasePathEvent::CanonicalFailed(cause) => EventView::CanonicalFailed(cause@),
        }
    }
}

/// The directory that holds `path`, if there is one.
pub fn parent_dir(path: &str) -> (r: Option<String>)
    ensures
        text_view(r) == parent(path@),
{
    let v = chars_of(path);
    let mut e: usize = v.len();
    proof {
        assert(v@.take(e as int) == v@);
    }
    while e > 0 && v[e - 1] == '/'
        invariant
            e <= v.len(),
            strip_separators(v@) == strip_separators(v@.take(e as int)),
        decreases e,
    {
        proof {
            assert(v@.take(e as int).drop_last() == v@.take(e - 1));
        }
        e -= 1;
    }
    if e == 0 {
        return None;
    }
    let mut b: usize = e;
    while b > 0 && v[b - 1] != '/'
        invariant
            b <= e <= v.len(),
            strip_name(v@.take(e as int)) == strip_name(v@.take(b as int)),
        decreases b,
    {
        proof {
            assert(v@.take(b as int).drop_last() == v@.take(b - 1));
        }
        b -= 1;
    }
    let mut d: usize = b;
    while d > 0 && v[d - 1] == '/'
        invariant
            d <= b <= v.len(),
            strip_separators(v@.take(b as int)) == strip_separators(v@.take(d as int)),
        decreases d,
    {
        proof {
            assert(v@.take(d as int).drop_last() == v@.take(d - 1));
        }
        d -= 1;
    }
    if d == 0 && b > 0 {
        let root = String::from_str("/");
        proof {
            reveal_strlit("/");
            assert(root@ =~= seq!['/']);
        }
        Some(root)
    } else {
        proof {
            assert(v@.take(d as int) == v@.subrange(0, d as int));
        }
        Some(string_of(&v, 0, d))
    }
}

impl BasePathState {
    /// The state in which the search begins.
    ///
    /// `override_path` is the base path that the application asked for, if it
    /// asked for one. With `honor_override` unset the wish is dropped here, and
    /// the search goes for the directory of the executable as if nothing had
    /// been asked.
    pub fn start(override_path: Option<String>, honor_override: bool) -> (s: BasePathState)
        ensures
            s@ == start_state(text_view(override_path), honor_override),
    {
        if honor_override {
            BasePathState::FindExecutable { override_path }
        } else {
            BasePathState::FindExecutable { override_path: None }
        }
    }

    /// Whether the search is over.
    pub fn is_finished(&self) -> (b: bool)
        ensures
            b == (self@ is Finished),
    {
        match self {
            BasePathState::Finished(_) => true,
            _ => false,
        }
    }

    /// The state that follows when the host reports `event`.
    ///
    /// The directory of the executable is the parent of its path; an override
    /// is set below it, unless it is rooted. A candidate that exists must be a
    /// directory, or the search ends with `BasePathNotADirectory`; one that
    /// does not exist is created first. The candidate is then brought into
    /// canonical form, and the canonical path is the base path, unless it is
    /// the root, which ends the search with `BasePathIsRoot`. Every failure
    /// that the host reports ends the search with the matching error. A report
    /// that does not answer what this state asks for leaves the state as it is.
    pub fn advance(self, event: BasePathEvent) -> (s: BasePathState)
        ensures
            s@ == next_state(self@, event@),
    {
        match self {
            BasePathState::FindExecutable { override_path } => match event {
                BasePathEvent::ExecutablePath(exe) => match parent_dir(exe.as_str()) {
                    Some(dir) => {
                        let candidate = match &override_path {
                            Some(p) => join_paths(dir.as_str(), p.as_str()),
                            None => dir,
                        };
                        BasePathState::CheckExists { candidate }
                    },
                    None => BasePathState::Finished(
                        Err(
                            PathRegistrationError::BasePathCanonicalizationFailed(
                                String::from_str("<executable_path>"),
                                String::from_str("Executable has no parent directory"),
                            ),
                        ),
                    ),
                },
                BasePathEvent::ExecutablePathFailed(cause) => BasePathState::Finished(
                    Err(
                        PathRegistrationError::BasePathCanonicalizationFailed(
                            String::from_str("<executable_path>"),
                            cause,
                        ),
                    ),
                ),
                _ => BasePathState::FindExecutable { override_path },
            },
            BasePathState::CheckExists { candidate } => match event {
                BasePathEvent::Exists(found) => if found {
                    BasePathState::CheckIsDirectory { candidate }
                } else {
                    BasePathState::CreateDir { candidate }
                },
                _ => BasePathState::CheckExists { candidate },
            },
            BasePathState::CheckIsDirectory { candidate } => match event {
                BasePathEvent::IsDirectory(is_directory) => if is_directory {
                    BasePathState::Canonicalize { candidate }
                } else {
                    BasePathState::Finished(
                        Err(PathRegistrationError::BasePathNotADirectory(candidate)),
                    )
                },
                _ => BasePathState::CheckIsDirectory { candidate },
            },
            BasePathState::CreateDir { candidate } => match event {
                BasePathEvent::Created => BasePathState::Canonicalize { candidate },
                BasePathEvent::CreateFailed(cause) => BasePathState::Finished(
                    Err(PathRegistrationError::CreateDirFailed(candidate, cause)),
                ),
                _ => BasePathState::CreateDir { candidate },
            },
            BasePathState::Canonicalize { candidate } => match event {
                BasePathEvent::Canonical(path) => {
                    let above = parent_dir(path.as_str());
                    if above.is_none() {
                        BasePathState::Finished(Err(PathRegistrationError::BasePathIsRoot(path)))
                    } else {
                        BasePathState::Finished(Ok(path))
                    }
                },
                BasePathEvent::CanonicalFailed(cause) => BasePathState::Finished(
                    Err(PathRegistrationError::BasePathCanonicalizationFailed(candidate, cause)),
                ),
                _ => BasePathState::Canonicalize { candidate },
            },
            BasePathState::Finished(outcome) => BasePathState::Finished(outcome),
        }
    }
}

/// The search never ends with the root as base path: it starts in a state that
/// keeps off the root, and no report of the host leads from such a state to
/// one that does not.
pub proof fn lemma_base_path_is_never_root(
    override_path: Option<Seq<char>>,
    honor_override: bool,
    state: StateView,
    event: EventView,
)
    requires
        keeps_off_root(state),
    ensures
        keeps_off_root(start_state(override_path, honor_override)),
        keeps_off_root(next_state(state, event)),
{
}

/// A candidate that exists and is no directory is never the base path: the
/// search ends with `BasePathNotADirectory` for that candidate, whatever the
/// host reports afterwards.
pub proof fn lemma_file_is_no_base_path(candidate: Seq<char>, later: Seq<EventView>)
    ensures
        next_state(StateView::CheckExists { candidate }, EventView::Exists(true)) == (
        StateView::CheckIsDirectory { candidate }),
        state_after(
            next_state(StateView::CheckIsDirectory { candidate }, EventView::IsDirectory(false)),
            later,
        ) == StateView::Finished(Err(PathFault::BasePathNotADirectory(candidate))),
    decreases later.len(),
{
    if later.len() > 0 {
        lemma_file_is_no_base_path(candidate, later.drop_last());
    }
}

/// The base path is a directory: whatever the host reports, a search that
/// begins by asking for the executable finds a base path only after the host
/// has said that the candidate is a directory or that it has created it, and
/// the base path is what the host then gave as the canonical form of that
/// candidate.
pub proof fn lemma_base_path_is_a_directory(
    override_path: Option<Seq<char>>,
    honor_override: bool,
    events: Seq<EventView>,
)
    ensures
        keeps_to_directories(start_state(override_path, honor_override), events),
    decreases events.len(),
{
    let start = start_state(override_path, honor_override);
    if events.len() > 0 {
        let earlier = events.drop_last();
        let before = state_after(start, earlier);
        let last = events.len() - 1;
        lemma_base_path_is_a_directory(override_path, honor_override, earlier);
        assert(events.take(last) == earlier);
        assert forall|at: int, candidate: Seq<char>|
            vouched_at(start, earlier, at, candidate) implies vouched_at(
            start,
            events,
            at,
            candidate,
        ) by {
            assert(events.take(at) == earlier.take(at));
        }
        match state_after(start, events) {
            StateView::Canonicalize { candidate } => {
                if before == (StateView::Canonicalize { candidate }) {
                    let at = choose|at: int| vouched_at(start, earlier, at, candidate);
                    assert(vouched_at(start, events, at, candidate));
                } else {
                    assert(vouches_for(before, events[last], candidate));
                    assert(vouched_at(start, events, last, candidate));
                }
            },
            StateView::Finished(Ok(path)) => {
                if before == StateView::Finished(Ok::<Seq<char>, PathFault>(path)) {
                    let (at, to, candidate) = choose|at: int, to: int, candidate: Seq<char>|
                        {
                            &&& #[trigger] vouched_at(start, earlier, at, candidate)
                            &&& at < to < earlier.len()
                            &&& state_after(start, earlier.take(to)) == (StateView::Canonicalize {
                                candidate,
                            })
                            &&& #[trigger] earlier[to] == EventView::Canonical(path)
                        };
                    assert(vouched_at(start, events, at, candidate));
                    assert(events.take(to) == earlier.take(to));
                    assert(events[to] == EventView::Canonical(path));
                } else {
                    let candidate = before->Canonicalize_candidate;
                    assert(before == (StateView::Canonicalize { candidate }));
                    let at = choose|at: int| vouched_at(start, earlier, at, candidate);
                    assert(vouched_at(start, events, at, candidate));
                    assert(events[last] == EventView::Canonical(path));
                }
            },
            _ => {},
        }
    }
}

/// Once the search is over, no report changes its outcome.
pub proof fn lemma_finished_stays(state: StateView, event: EventView)
    requires
        state is Finished,
    ensures
        next_state(state, event) == state,
{
}

/// An override that is not to be honoured has no effect: the search runs as if
/// none had been asked for.
pub proof fn lemma_unhonoured_override_is_inert(override_path: Option<Seq<char>>)
    ensures
        start_state(override_path, false) == start_state(None, false),
        start_state(override_path, false) == start_state(None, true),
{
}

} // verus!
