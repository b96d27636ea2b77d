use bevy_paths::base_path::parent_dir;
use bevy_paths::{BasePathEvent, BasePathState, PathRegistrationError};

fn find(override_path: Option<&str>) -> BasePathState {
    BasePathState::FindExecutable { override_path: override_path.map(|p| p.to_string()) }
}

fn check(candidate: &str) -> BasePathState {
    BasePathState::CheckExists { candidate: candidate.to_string() }
}

fn is_directory(candidate: &str) -> BasePathState {
    BasePathState::CheckIsDirectory { candidate: candidate.to_string() }
}

fn create(candidate: &str) -> BasePathState {
    BasePathState::CreateDir { candidate: candidate.to_string() }
}

fn canonicalize(candidate: &str) -> BasePathState {
    BasePathState::Canonicalize { candidate: candidate.to_string() }
}

fn exe(path: &str) -> BasePathEvent {
    BasePathEvent::ExecutablePath(path.to_string())
}

#[test]
fn parent_of_a_path() {
    assert_eq!(parent_dir("/opt/game/bin/game"), Some("/opt/game/bin".to_string()));
    assert_eq!(parent_dir("/opt/game/bin/"), Some("/opt/game".to_string()));
    assert_eq!(parent_dir("/opt//game"), Some("/opt".to_string()));
    assert_eq!(parent_dir("/game"), Some("/".to_string()));
    assert_eq!(parent_dir("//game"), Some("/".to_string()));
    assert_eq!(parent_dir("game"), Some(String::new()));
    assert_eq!(parent_dir("dir/game"), Some("dir".to_string()));
    assert_eq!(parent_dir("/"), None);
    assert_eq!(parent_dir("///"), None);
    assert_eq!(parent_dir(""), None);
}

#[test]
fn search_starts_by_asking_for_the_executable() {
    assert_eq!(BasePathState::start(None, true), find(None));
    assert_eq!(BasePathState::start(None, false), find(None));
    assert_eq!(BasePathState::start(Some("dev".to_string()), true), find(Some("dev")));
    assert!(!BasePathState::start(None, true).is_finished());
}

#[test]
fn override_is_inert_unless_honoured() {
    assert_eq!(BasePathState::start(Some("dev".to_string()), false), find(None));
    assert_eq!(
        BasePathState::start(Some("/abs".to_string()), false).advance(exe("/opt/game/game")),
        check("/opt/game")
    );
}

#[test]
fn candidate_is_the_executable_directory_or_the_override() {
    assert_eq!(find(None).advance(exe("/opt/game/game")), check("/opt/game"));
    assert_eq!(find(Some("assets_debug")).advance(exe("/opt/game/game")), check("/opt/game/assets_debug"));
    assert_eq!(find(Some("../dev")).advance(exe("/opt/game/game")), check("/opt/game/../dev"));
    assert_eq!(find(Some("/srv/data")).advance(exe("/opt/game/game")), check("/srv/data"));
    assert_eq!(find(Some("data")).advance(exe("/game")), check("/data"));
    assert_eq!(find(None).advance(exe("game")), check(""));
}

#[test]
fn executable_without_directory_ends_the_search() {
    let expected = BasePathState::Finished(Err(
        PathRegistrationError::BasePathCanonicalizationFailed(
            "<executable_path>".to_string(),
            "Executable has no parent directory".to_string(),
        ),
    ));
    assert_eq!(find(None).advance(exe("/")), expected);
    assert_eq!(find(Some("dev")).advance(exe("")), expected);
}

#[test]
fn unknown_executable_ends_the_search() {
    assert_eq!(
        find(None).advance(BasePathEvent::ExecutablePathFailed("no such process".to_string())),
        BasePathState::Finished(Err(PathRegistrationError::BasePathCanonicalizationFailed(
            "<executable_path>".to_string(),
            "no such process".to_string(),
        )))
    );
}

#[test]
fn missing_candidate_is_created_first() {
    assert_eq!(check("/opt/game").advance(BasePathEvent::Exists(false)), create("/opt/game"));
    assert_eq!(create("/opt/game").advance(BasePathEvent::Created), canonicalize("/opt/game"));
}

#[test]
fn existing_candidate_must_be_a_directory() {
    assert_eq!(check("/opt/game").advance(BasePathEvent::Exists(true)), is_directory("/opt/game"));
    assert_eq!(
        is_directory("/opt/game").advance(BasePathEvent::IsDirectory(true)),
        canonicalize("/opt/game")
    );
    assert_eq!(
        is_directory("/opt/game/save.dat").advance(BasePathEvent::IsDirectory(false)),
        BasePathState::Finished(Err(PathRegistrationError::BasePathNotADirectory(
            "/opt/game/save.dat".to_string()
        )))
    );
}

#[test]
fn file_never_becomes_the_base_path() {
    let mut state = BasePathState::start(Some("notes.txt".to_string()), true);
    state = state.advance(exe("/opt/game/game"));
    assert_eq!(state, check("/opt/game/notes.txt"));
    state = state.advance(BasePathEvent::Exists(true));
    // Reports that answer another question do not let the file through.
    state = state.advance(BasePathEvent::Created);
    state = state.advance(BasePathEvent::Canonical("/opt/game/notes.txt".to_string()));
    assert_eq!(state, is_directory("/opt/game/notes.txt"));
    state = state.advance(BasePathEvent::IsDirectory(false));
    let refused = || {
        BasePathState::Finished(Err(PathRegistrationError::BasePathNotADirectory(
            "/opt/game/notes.txt".to_string(),
        )))
    };
    assert_eq!(state, refused());
    state = state.advance(BasePathEvent::IsDirectory(true));
    state = state.advance(BasePathEvent::Canonical("/opt/game/notes.txt".to_string()));
    assert_eq!(state, refused());
}

#[test]
fn failed_creation_ends_the_search() {
    assert_eq!(
        create("/opt/game").advance(BasePathEvent::CreateFailed("permission denied".to_string())),
        BasePathState::Finished(Err(PathRegistrationError::CreateDirFailed(
            "/opt/game".to_string(),
            "permission denied".to_string(),
        )))
    );
}

#[test]
fn canonical_path_is_the_base_path() {
    let done = canonicalize("/opt/game/../dev")
        .advance(BasePathEvent::Canonical("/opt/dev".to_string()));
    assert_eq!(done, BasePathState::Finished(Ok("/opt/dev".to_string())));
    assert!(done.is_finished());
}

#[test]
fn root_is_no_base_path() {
    assert_eq!(
        canonicalize("/opt/..").advance(BasePathEvent::Canonical("/".to_string())),
        BasePathState::Finished(Err(PathRegistrationError::BasePathIsRoot("/".to_string())))
    );
    assert_eq!(
        canonicalize("x").advance(BasePathEvent::Canonical(String::new())),
        BasePathState::Finished(Err(PathRegistrationError::BasePathIsRoot(String::new())))
    );
}

#[test]
fn failed_canonicalization_ends_the_search() {
    assert_eq!(
        canonicalize("/opt/game").advance(BasePathEvent::CanonicalFailed("loop".to_string())),
        BasePathState::Finished(Err(PathRegistrationError::BasePathCanonicalizationFailed(
            "/opt/game".to_string(),
            "loop".to_string(),
        )))
    );
}

#[test]
fn report_that_answers_nothing_changes_nothing() {
    assert_eq!(find(Some("dev")).advance(BasePathEvent::Exists(true)), find(Some("dev")));
    assert_eq!(find(None).advance(BasePathEvent::Created), find(None));
    assert_eq!(check("/a").advance(exe("/b/c")), check("/a"));
    assert_eq!(check("/a").advance(BasePathEvent::Canonical("/a".to_string())), check("/a"));
    assert_eq!(check("/a").advance(BasePathEvent::IsDirectory(true)), check("/a"));
    assert_eq!(is_directory("/a").advance(BasePathEvent::Exists(true)), is_directory("/a"));
    assert_eq!(is_directory("/a").advance(BasePathEvent::Created), is_directory("/a"));
    assert_eq!(create("/a").advance(BasePathEvent::IsDirectory(true)), create("/a"));
    assert_eq!(canonicalize("/a").advance(BasePathEvent::IsDirectory(false)), canonicalize("/a"));
    assert_eq!(create("/a").advance(BasePathEvent::Exists(true)), create("/a"));
    assert_eq!(canonicalize("/a").advance(BasePathEvent::Created), canonicalize("/a"));
    assert_eq!(
        canonicalize("/a").advance(BasePathEvent::CreateFailed("x".to_string())),
        canonicalize("/a")
    );
}

#[test]
fn finished_search_stays_finished() {
    let ok = || BasePathState::Finished(Ok("/opt/game".to_string()));
    let err = || BasePathState::Finished(Err(PathRegistrationError::BasePathIsRoot("/".to_string())));
    for event in [
        exe("/x/y"),
        BasePathEvent::ExecutablePathFailed("e".to_string()),
        BasePathEvent::Exists(true),
        BasePathEvent::Exists(false),
        BasePathEvent::IsDirectory(true),
        BasePathEvent::IsDirectory(false),
        BasePathEvent::Created,
        BasePathEvent::CreateFailed("e".to_string()),
        BasePathEvent::Canonical("/".to_string()),
        BasePathEvent::CanonicalFailed("e".to_string()),
    ] {
        assert_eq!(ok().advance(event.clone()), ok());
        assert_eq!(err().advance(event), err());
    }
}

#[test]
fn whole_search_with_a_relative_override() {
    let mut state = BasePathState::start(Some("assets_debug".to_string()), true);
    state = state.advance(exe("/opt/game/target/debug/game"));
    assert_eq!(state, check("/opt/game/target/debug/assets_debug"));
    state = state.advance(BasePathEvent::Exists(false));
    state = state.advance(BasePathEvent::Created);
    state = state.advance(BasePathEvent::Canonical("/opt/game/target/debug/assets_debug".to_string()));
    assert_eq!(
        state,
        BasePathState::Finished(Ok("/opt/game/target/debug/assets_debug".to_string()))
    );
}

#[test]
fn whole_search_with_an_existing_directory() {
    let mut state = BasePathState::start(None, true);
    state = state.advance(exe("/opt/game/game"));
    assert_eq!(state, check("/opt/game"));
    state = state.advance(BasePathEvent::Exists(true));
    assert_eq!(state, is_directory("/opt/game"));
    state = state.advance(BasePathEvent::IsDirectory(true));
    assert_eq!(state, canonicalize("/opt/game"));
    state = state.advance(BasePathEvent::Canonical("/srv/games/game".to_string()));
    assert_eq!(state, BasePathState::Finished(Ok("/srv/games/game".to_string())));
}
