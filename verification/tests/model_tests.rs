use tasker::taskfile::{CmdArg, CommandTypes, TaskCmd, TaskContext, TaskStanza, Taskfile};
use tasker::vars::VarMap;

/// The sample configuration used across the test files: a context `test`
/// overriding `test_key`, a task `test-cmd` greeting with one required and
/// one defaulted argument, and a task `test-task` invoking it twice.
fn load_sample() -> Taskfile {
    let mut test_context_vars = VarMap::new();
    test_context_vars.upsert("test_key".to_string(), "test_value".to_string());
    let contexts = vec![("test".to_string(), TaskContext { vars: test_context_vars })];

    let test_cmd = TaskStanza::new(
        "test-cmd".to_string(),
        vec![TaskCmd {
            key: CommandTypes::Shell("shell".to_string()),
            value: "echo Hello ${required_arg} ${default_arg}".to_string(),
        }],
        vec![
            CmdArg {
                name: "required_arg".to_string(),
                default: None,
                arg_type: "string".to_string(),
            },
            CmdArg {
                name: "default_arg".to_string(),
                default: Some("default".to_string()),
                arg_type: "string".to_string(),
            },
        ],
        Some("greets a user by name".to_string()),
    );
    let test_task = TaskStanza::new(
        "test-task".to_string(),
        vec![
            TaskCmd {
                key: CommandTypes::Task("task".to_string()),
                value: "test-cmd Foo Bar".to_string(),
            },
            TaskCmd {
                key: CommandTypes::Task("task".to_string()),
                value: "test-cmd Bar Foo".to_string(),
            },
        ],
        vec![],
        Some("greets a user by name".to_string()),
    );
    Taskfile { contexts, tasks: vec![test_cmd, test_task] }
}

#[test]
fn test_load_from_yaml() {
    let _ = load_sample();
}

#[test]
fn test_get_task_by_name() {
    let taskfile = load_sample();
    let task = taskfile.get_task_by_name(&"test-cmd".to_string());
    assert!(task.is_some());
}

#[test]
fn test_get_context() {
    let taskfile = load_sample();
    let context = taskfile.get_context(Some("test".to_string()));
    assert_eq!(context.get(&"test_key".to_string()), Some(&"test_value".to_string()));
}

#[test]
fn test_get_context_none() {
    let taskfile = load_sample();
    let context = taskfile.get_context(None);
    assert_eq!(context.get(&"test".to_string()), None);
}

#[test]
fn test_get_context_unknown_name_is_empty() {
    let taskfile = load_sample();
    let context = taskfile.get_context(Some("missing".to_string()));
    assert_eq!(context.num_entries(), 0);
}

#[test]
fn test_cmd_arg_get_name() {
    let arg = CmdArg {
        name: "test".to_string(),
        default: Some("default".to_string()),
        arg_type: "string".to_string(),
    };
    assert_eq!(arg.get_name().as_str(), "test");
}

#[test]
fn test_cmd_arg_get_default() {
    let arg = CmdArg {
        name: "test".to_string(),
        default: Some("default".to_string()),
        arg_type: "string".to_string(),
    };
    assert_eq!(arg.get_default(), Some(&"default".to_string()));
}

#[test]
fn test_display_command_types() {
    let task = CommandTypes::Task("task".to_string());
    let shell = CommandTypes::Shell("shell".to_string());
    let script = CommandTypes::Script("script".to_string());
    assert_eq!(task.display_string(), "task");
    assert_eq!(shell.display_string(), "shell");
    assert_eq!(script.display_string(), "script");
}

#[test]
fn test_get_command_args() {
    let taskfile = load_sample();
    let task = taskfile.get_task_by_name(&"test-cmd".to_string()).unwrap();
    let args = task.get_command_args();
    assert_eq!(args.len(), 2);
    assert_eq!(args[0].get_name(), "required_arg");
    assert_eq!(args[1].get_name(), "default_arg");
}

#[test]
fn test_is_required() {
    let required = CmdArg {
        name: "a".to_string(),
        default: None,
        arg_type: "string".to_string(),
    };
    let optional = CmdArg {
        name: "b".to_string(),
        default: Some("fallback".to_string()),
        arg_type: "string".to_string(),
    };
    assert!(required.is_required());
    assert!(!optional.is_required());
}
