use bevy_paths::{PathRegistrationError, PathValidationError};

#[test]
fn validation_error_messages() {
    assert_eq!(PathValidationError::EmptyPath.message(), "Registered path cannot be empty.");
    assert_eq!(
        PathValidationError::TildeNotAllowed.message(),
        "Registered path cannot start with a tilde '~'."
    );
    assert_eq!(
        PathValidationError::AbsolutePathNotAllowed.message(),
        "Registered path must be relative, but an absolute path was provided."
    );
    assert_eq!(
        PathValidationError::RelativeNavigationNotAllowed.message(),
        "Registered path cannot contain relative navigation like '.' or '..'."
    );
    assert_eq!(
        PathValidationError::InvalidComponent("a*b".to_string()).message(),
        "Path component 'a*b' contains invalid characters or is a reserved name on Windows."
    );
    assert_eq!(
        PathValidationError::BasePathNotADirectory("/x/file".to_string()).message(),
        "The provided base path '/x/file' must be a directory, but it is a file."
    );
    assert_eq!(
        PathValidationError::BasePathCanonicalizationFailed(
            "/x".to_string(),
            "not found".to_string()
        )
        .message(),
        "Failed to resolve the canonical path for '/x'. IO Error: not found"
    );
    assert_eq!(
        PathValidationError::BasePathIsRoot("/".to_string()).message(),
        "The base path resolved to the file system root '/', which is disallowed."
    );
    assert_eq!(
        PathValidationError::CreateDirFailed("/x".to_string(), "denied".to_string()).message(),
        "Failed to create the base path directory '/x'. IO Error: denied"
    );
}

#[test]
fn registration_error_messages() {
    assert_eq!(PathRegistrationError::EmptyPath.message(), "Registered path cannot be empty.");
    assert_eq!(
        PathRegistrationError::TildeNotAllowed.message(),
        "Registered path cannot start with a tilde '~'."
    );
    assert_eq!(
        PathRegistrationError::AbsolutePathNotAllowed.message(),
        "Registered path must be relative, but an absolute path was provided."
    );
    assert_eq!(
        PathRegistrationError::RelativeNavigationNotAllowed.message(),
        "Registered path cannot contain relative navigation like '.' or '..'."
    );
    assert_eq!(
        PathRegistrationError::InvalidComponent("CON".to_string()).message(),
        "Path component 'CON' contains invalid characters or is a reserved name on Windows."
    );
    assert_eq!(
        PathRegistrationError::BasePathNotADirectory("/x/file".to_string()).message(),
        "The provided base path '/x/file' must be a directory, but it is a file."
    );
    assert_eq!(
        PathRegistrationError::BasePathCanonicalizationFailed(
            "<executable_path>".to_string(),
            "gone".to_string()
        )
        .message(),
        "Failed to resolve the canonical path for '<executable_path>'. IO Error: gone"
    );
    assert_eq!(
        PathRegistrationError::BasePathIsRoot("/".to_string()).message(),
        "The base path resolved to the file system root '/', which is disallowed."
    );
    assert_eq!(
        PathRegistrationError::CreateDirFailed("/x".to_string(), "denied".to_string()).message(),
        "Failed to create the base path directory '/x'. IO Error: denied"
    );
}

#[test]
fn validation_errors_convert_to_registration_errors() {
    assert_eq!(
        PathRegistrationError::from(PathValidationError::EmptyPath),
        PathRegistrationError::EmptyPath
    );
    assert_eq!(
        PathRegistrationError::from(PathValidationError::TildeNotAllowed),
        PathRegistrationError::TildeNotAllowed
    );
    assert_eq!(
        PathRegistrationError::from(PathValidationError::AbsolutePathNotAllowed),
        PathRegistrationError::AbsolutePathNotAllowed
    );
    assert_eq!(
        PathRegistrationError::from(PathValidationError::RelativeNavigationNotAllowed),
        PathRegistrationError::RelativeNavigationNotAllowed
    );
    assert_eq!(
        PathRegistrationError::from(PathValidationError::InvalidComponent("x?".to_string())),
        PathRegistrationError::InvalidComponent("x?".to_string())
    );
    assert_eq!(
        PathRegistrationError::from_validation(PathValidationError::BasePathNotADirectory(
            "f".to_string()
        )),
        PathRegistrationError::BasePathNotADirectory("f".to_string())
    );
    assert_eq!(
        PathRegistrationError::from_validation(
            PathValidationError::BasePathCanonicalizationFailed("p".to_string(), "c".to_string())
        ),
        PathRegistrationError::BasePathCanonicalizationFailed("p".to_string(), "c".to_string())
    );
    assert_eq!(
        PathRegistrationError::from_validation(PathValidationError::BasePathIsRoot(
            "/".to_string()
        )),
        PathRegistrationError::BasePathIsRoot("/".to_string())
    );
    assert_eq!(
        PathRegistrationError::from_validation(PathValidationError::CreateDirFailed(
            "p".to_string(),
            "c".to_string()
        )),
        PathRegistrationError::CreateDirFailed("p".to_string(), "c".to_string())
    );
}
