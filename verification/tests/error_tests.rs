use tasker::errors::{ArgError, ErrWithMessage, ExecutionError, TaskfileError, UserFacingError};

#[test]
fn test_display_arg_error() {
    let arg_error = ArgError { message: "test".to_string() };
    assert_eq!(arg_error.display_string(), "Missing Value: test");
}

#[test]
fn test_display_execution_error() {
    let error = ExecutionError::CommandFailed(ErrWithMessage {
        code: "COMMAND_ERROR".to_string(),
        messages: vec!["Command failed to execute".to_string()],
    });
    assert_eq!(
        error.display_string(),
        "Command failed to execute:\n    \u{1b}[31mCOMMAND_ERROR\u{1b}[0m: Command failed to execute"
    );
}

#[test]
fn test_h() {}

#[test]
fn test_display_user_facing_error() {
    let error = UserFacingError::TaskfileDoesNotExist(ErrWithMessage {
        code: "FILE_ERROR".to_string(),
        messages: vec!["File does not exist".to_string()],
    });
    assert_eq!(
        error.display_string(),
        "\x1b[31mFILE_ERROR\x1b[0m: File does not exist"
    );
}

#[test]
fn test_display_user_facing_error_with_stack() {
    let err = ErrWithMessage {
        code: "FILE_ERROR".to_string(),
        messages: vec!["File does not exist".to_string()],
    };
    let mut full_error = UserFacingError::TaskfileDoesNotExist(err);
    full_error.add_to_error_stack("Taskfile could not be found".to_string());
    assert_eq!(
        full_error.display_string(),
        "\x1b[31mFILE_ERROR\x1b[0m: Taskfile could not be found\n>    File does not exist"
    );
}

#[test]
fn test_from_execution_error() {
    let error = UserFacingError::from(TaskfileError::FileParseError(ErrWithMessage {
        code: "FILE_ERROR".to_string(),
        messages: vec!["File does not exist".to_string()],
    }));
    assert_eq!(
        error.display_string(),
        "\x1b[31mFILE_ERROR\x1b[0m: Taskfile encountered parsing issue\n>    File does not exist"
    );
}

#[test]
fn test_from_taskfile_error() {
    let error = UserFacingError::from(TaskfileError::FileNotFound(ErrWithMessage {
        code: "FILE_ERROR".to_string(),
        messages: vec!["File does not exist".to_string()],
    }));
    assert_eq!(
        error.display_string(),
        "\x1b[31mFILE_ERROR\x1b[0m: Taskfile could not be found\n>    File does not exist"
    );
}

#[test]
fn test_from_taskfile_error_with_stack() {
    let err = ErrWithMessage {
        code: "FILE_ERROR".to_string(),
        messages: vec!["File does not exist".to_string()],
    };
    let mut full_error = UserFacingError::from(TaskfileError::FileNotFound(err));
    full_error.add_to_error_stack("Taskfile could not be found".to_string());
    assert_eq!(
        full_error.display_string(),
        "\x1b[31mFILE_ERROR\x1b[0m: Taskfile could not be found\n>    Taskfile could not be found\n>    File does not exist"
    );
}

#[test]
fn test_from_user_facing_execution_error() {
    let error = UserFacingError::from(ExecutionError::CommandFailed(ErrWithMessage {
        code: "COMMAND_ERROR".to_string(),
        messages: vec!["exit status 1".to_string()],
    }));
    assert!(matches!(error, UserFacingError::TaskExecutionError(_)));
    assert_eq!(
        error.display_string(),
        "\x1b[31mCOMMAND_ERROR\x1b[0m: Command failed to execute\n>    exit status 1"
    );
}

#[test]
fn test_display_taskfile_error() {
    let error = TaskfileError::FileNotFound(ErrWithMessage {
        code: "FILE_ERROR".to_string(),
        messages: vec!["File does not exist".to_string()],
    });
    assert_eq!(
        error.display_string(),
        "Taskfile does not exist:\n    \u{1b}[31mFILE_ERROR\u{1b}[0m: File does not exist"
    );
}

#[test]
fn test_add_to_stack() {
    let mut err = ErrWithMessage {
        code: "CODE".to_string(),
        messages: vec!["first".to_string()],
    };
    err.add_to_stack("second".to_string());
    assert_eq!(err.messages, vec!["first".to_string(), "second".to_string()]);
    assert_eq!(err.display_string(), "\x1b[31mCODE\x1b[0m: second\n>    first");
}
