use tasker::errors::UserFacingError;
use tasker::expand::{create_command_strings, get_all_commands_parsed};
use tasker::subst::{replace_string_with_args, replace_string_with_args_quoted};
use tasker::taskfile::{CmdArg, CommandTypes, TaskCmd, TaskContext, TaskStanza, Taskfile};
use tasker::vars::VarMap;

fn shell(template: &str) -> TaskCmd {
    TaskCmd { key: CommandTypes::Shell("shell".to_string()), value: template.to_string() }
}

fn task(template: &str) -> TaskCmd {
    TaskCmd { key: CommandTypes::Task("task".to_string()), value: template.to_string() }
}

fn arg(name: &str, default: Option<&str>) -> CmdArg {
    CmdArg {
        name: name.to_string(),
        default: default.map(|d| d.to_string()),
        arg_type: "string".to_string(),
    }
}

fn sample_file() -> Taskfile {
    let test_cmd = TaskStanza::new(
        "test-cmd".to_string(),
        vec![shell("echo Hello ${required_arg} ${default_arg}")],
        vec![arg("required_arg", None), arg("default_arg", Some("default"))],
        Some("greets a user by name".to_string()),
    );
    let test_task = TaskStanza::new(
        "test-task".to_string(),
        vec![task("test-cmd Foo Bar"), task("test-cmd Bar Foo")],
        vec![],
        Some("greets a user by name".to_string()),
    );
    Taskfile { contexts: vec![], tasks: vec![test_cmd, test_task] }
}

fn greeting_file() -> Taskfile {
    let mut staging_vars = VarMap::new();
    staging_vars.upsert("last".to_string(), "Riser".to_string());
    let greet = TaskStanza::new(
        "greet".to_string(),
        vec![shell("echo ${first} ${last}")],
        vec![arg("first", None), arg("last", Some("the First"))],
        None,
    );
    let batch = TaskStanza::new(
        "batch".to_string(),
        vec![task("greet Foo"), task("greet Bar")],
        vec![],
        None,
    );
    Taskfile {
        contexts: vec![("staging".to_string(), TaskContext { vars: staging_vars })],
        tasks: vec![greet, batch],
    }
}

#[test]
fn builder_test_get_all_commands_parsed_with_task() {
    let file = sample_file();
    let target = file.get_task_by_name(&"test-task".to_string()).unwrap();
    let commands =
        get_all_commands_parsed(&file, target, &VarMap::new(), &VarMap::new()).unwrap();
    assert_eq!(commands[0], "echo Hello Foo Bar");
    assert_eq!(commands[1], "echo Hello Bar Foo");
}

#[test]
fn mod_test_get_all_commands_parsed_with_task() {
    let file = sample_file();
    let target = file.get_task_by_name(&"test-task".to_string()).unwrap();
    let commands =
        get_all_commands_parsed(&file, target, &VarMap::new(), &VarMap::new()).unwrap();
    assert_eq!(commands[0], "echo Hello Foo Bar");
    assert_eq!(commands[1], "echo Hello Bar Foo");
}

#[test]
fn test_error_on_missing_arg() {
    let file = sample_file();
    let target = file.get_task_by_name(&"test-task".to_string()).unwrap();
    let commands =
        get_all_commands_parsed(&file, target, &VarMap::new(), &VarMap::new()).unwrap();
    assert_eq!(commands[0], "echo Hello Foo Bar");
    assert_eq!(commands[1], "echo Hello Bar Foo");
}

#[test]
fn greet_resolves_with_cli_value() {
    let file = greeting_file();
    let mut supplied = VarMap::new();
    supplied.upsert("first".to_string(), "Peter".to_string());
    let commands =
        create_command_strings(&file, &"greet".to_string(), None, &supplied).unwrap();
    assert_eq!(commands, vec!["echo Peter the First"]);
}

#[test]
fn greet_resolves_with_context_override() {
    let file = greeting_file();
    let mut supplied = VarMap::new();
    supplied.upsert("first".to_string(), "Peter".to_string());
    let commands =
        create_command_strings(&file, &"greet".to_string(), Some("staging".to_string()), &supplied)
            .unwrap();
    assert_eq!(commands, vec!["echo Peter Riser"]);
}

#[test]
fn batch_expands_in_declared_order() {
    let file = greeting_file();
    let commands =
        create_command_strings(&file, &"batch".to_string(), None, &VarMap::new()).unwrap();
    assert_eq!(commands, vec!["echo Foo the First", "echo Bar the First"]);
}

#[test]
fn expansion_flattens_depth_first() {
    // [Shell(A), Task(B), Shell(C)] where B expands to [X, Y] yields
    // exactly [A, X, Y, C].
    let outer = TaskStanza::new(
        "outer".to_string(),
        vec![shell("echo A"), task("inner"), shell("echo C")],
        vec![],
        None,
    );
    let inner = TaskStanza::new(
        "inner".to_string(),
        vec![shell("echo X"), shell("echo Y")],
        vec![],
        None,
    );
    let file = Taskfile { contexts: vec![], tasks: vec![outer, inner] };
    let commands =
        create_command_strings(&file, &"outer".to_string(), None, &VarMap::new()).unwrap();
    assert_eq!(commands, vec!["echo A", "echo X", "echo Y", "echo C"]);
}

#[test]
fn spaced_value_passes_through_a_task_reference_whole() {
    // A value holding a space is quoted when substituted into a task
    // invocation, so it reaches the sub-task as one positional token.
    let outer = TaskStanza::new(
        "outer".to_string(),
        vec![task("inner ${val}")],
        vec![arg("val", Some("a b"))],
        None,
    );
    let inner = TaskStanza::new(
        "inner".to_string(),
        vec![shell("echo ${x}")],
        vec![arg("x", None)],
        None,
    );
    let file = Taskfile { contexts: vec![], tasks: vec![outer, inner] };
    let commands =
        create_command_strings(&file, &"outer".to_string(), None, &VarMap::new()).unwrap();
    assert_eq!(commands, vec!["echo a b"]);
}

#[test]
fn missing_variable_fails_substitution() {
    let lookup = VarMap::new();
    let err = replace_string_with_args("echo ${ghost_arg}".to_string(), &lookup).unwrap_err();
    assert_eq!(err.message, "variable string is ghost_arg");
    assert_eq!(err.display_string(), "Missing Value: variable string is ghost_arg");
}

#[test]
fn quoted_substitution_wraps_spaced_values() {
    let mut lookup = VarMap::new();
    lookup.upsert("a".to_string(), "one two".to_string());
    lookup.upsert("b".to_string(), "plain".to_string());
    let out = replace_string_with_args_quoted("x ${a} ${b}".to_string(), &lookup).unwrap();
    assert_eq!(out, "x \"one two\" plain");
    let out = replace_string_with_args("x ${a} ${b}".to_string(), &lookup).unwrap();
    assert_eq!(out, "x one two plain");
}

#[test]
fn unknown_task_reference_fails() {
    let outer = TaskStanza::new(
        "outer".to_string(),
        vec![task("nowhere")],
        vec![],
        None,
    );
    let file = Taskfile { contexts: vec![], tasks: vec![outer] };
    let err =
        create_command_strings(&file, &"outer".to_string(), None, &VarMap::new()).unwrap_err();
    match err {
        UserFacingError::TaskDoesNotExist(e) => {
            assert_eq!(e.code, "TASK_ERROR");
            assert_eq!(e.messages, vec!["no task named `nowhere`".to_string()]);
        },
        _ => panic!("expected an unknown-task error"),
    }
}

#[test]
fn unknown_requested_task_fails() {
    let file = sample_file();
    let err =
        create_command_strings(&file, &"absent".to_string(), None, &VarMap::new()).unwrap_err();
    assert!(matches!(err, UserFacingError::TaskDoesNotExist(_)));
}

#[test]
fn script_entries_are_unimplemented() {
    let scripted = TaskStanza::new(
        "scripted".to_string(),
        vec![TaskCmd {
            key: CommandTypes::Script("script".to_string()),
            value: "run.sh".to_string(),
        }],
        vec![],
        None,
    );
    let file = Taskfile { contexts: vec![], tasks: vec![scripted] };
    let err =
        create_command_strings(&file, &"scripted".to_string(), None, &VarMap::new()).unwrap_err();
    match err {
        UserFacingError::UnimplementedCommand(e) => {
            assert_eq!(e.code, "UNIMPLEMENTED_COMMAND");
            assert_eq!(
                e.messages,
                vec!["script commands are not implemented: run.sh".to_string()]
            );
        },
        _ => panic!("expected an unimplemented-command error"),
    }
}

#[test]
fn self_invocation_is_a_cycle() {
    let looping = TaskStanza::new(
        "looping".to_string(),
        vec![task("looping")],
        vec![],
        None,
    );
    let file = Taskfile { contexts: vec![], tasks: vec![looping] };
    let err =
        create_command_strings(&file, &"looping".to_string(), None, &VarMap::new()).unwrap_err();
    match err {
        UserFacingError::CycleDetected(e) => {
            assert_eq!(e.code, "CYCLE_ERROR");
            assert_eq!(e.messages, vec!["task `looping` invokes itself".to_string()]);
        },
        _ => panic!("expected a cycle error"),
    }
}

#[test]
fn mutual_invocation_is_a_cycle() {
    let a = TaskStanza::new("a".to_string(), vec![task("b")], vec![], None);
    let b = TaskStanza::new("b".to_string(), vec![task("a")], vec![], None);
    let file = Taskfile { contexts: vec![], tasks: vec![a, b] };
    let err = create_command_strings(&file, &"a".to_string(), None, &VarMap::new()).unwrap_err();
    assert!(matches!(err, UserFacingError::CycleDetected(_)));
}

#[test]
fn missing_subtask_argument_fails_expansion() {
    let outer = TaskStanza::new(
        "outer".to_string(),
        vec![task("inner")],
        vec![],
        None,
    );
    let inner = TaskStanza::new(
        "inner".to_string(),
        vec![shell("echo ${x}")],
        vec![arg("x", None)],
        None,
    );
    let file = Taskfile { contexts: vec![], tasks: vec![outer, inner] };
    let err =
        create_command_strings(&file, &"outer".to_string(), None, &VarMap::new()).unwrap_err();
    match err {
        UserFacingError::MissingArgError(e) => {
            assert_eq!(e.code, "MISSING_ARGUMENT");
            assert_eq!(
                e.messages,
                vec!["missing value for argument `x` of task `inner`".to_string()]
            );
        },
        _ => panic!("expected a missing-argument error"),
    }
}

#[test]
fn task_with_no_commands_expands_to_nothing() {
    let idle = TaskStanza::new("idle".to_string(), vec![], vec![], None);
    let file = Taskfile { contexts: vec![], tasks: vec![idle] };
    let commands =
        create_command_strings(&file, &"idle".to_string(), None, &VarMap::new()).unwrap();
    assert!(commands.is_empty());
}

#[test]
fn nested_tasks_keep_depth_first_order() {
    let top = TaskStanza::new(
        "top".to_string(),
        vec![shell("echo 1"), task("mid"), shell("echo 6")],
        vec![],
        None,
    );
    let mid = TaskStanza::new(
        "mid".to_string(),
        vec![shell("echo 2"), task("leaf"), shell("echo 5")],
        vec![],
        None,
    );
    let leaf = TaskStanza::new(
        "leaf".to_string(),
        vec![shell("echo 3"), shell("echo 4")],
        vec![],
        None,
    );
    let file = Taskfile { contexts: vec![], tasks: vec![top, mid, leaf] };
    let commands =
        create_command_strings(&file, &"top".to_string(), None, &VarMap::new()).unwrap();
    assert_eq!(
        commands,
        vec!["echo 1", "echo 2", "echo 3", "echo 4", "echo 5", "echo 6"]
    );
}
