use tasker::binder::{bind_positional, bind_variables};
use tasker::errors::UserFacingError;
use tasker::subst::replace_string_with_args;
use tasker::taskfile::{CmdArg, CommandTypes, TaskCmd, TaskStanza};
use tasker::vars::{upsert_into_hash_map, VarMap};

fn sample_test_cmd() -> TaskStanza {
    TaskStanza::new(
        "test-cmd".to_string(),
        vec![TaskCmd {
            key: CommandTypes::Shell("shell".to_string()),
            value: "echo Hello ${required_arg} ${default_arg}".to_string(),
        }],
        vec![
            CmdArg {
                name: "required_arg".to_string(),
                default: None,
                arg_type: "string".to_string(),
            },
            CmdArg {
                name: "default_arg".to_string(),
                default: Some("default".to_string()),
                arg_type: "string".to_string(),
            },
        ],
        Some("greets a user by name".to_string()),
    )
}

#[test]
fn builder_test_update_variables_from_hashmap() {
    let mut lookup = VarMap::new();
    upsert_into_hash_map("test".to_string(), "test".to_string(), &mut lookup);
    assert_eq!(lookup.get(&"test".to_string()).unwrap(), "test");
}

#[test]
fn mod_test_update_variables_from_hashmap() {
    let mut lookup = VarMap::new();
    upsert_into_hash_map("test".to_string(), "test".to_string(), &mut lookup);
    assert_eq!(lookup.get(&"test".to_string()).unwrap(), "test");
}

#[test]
fn upsert_replaces_an_existing_binding() {
    let mut lookup = VarMap::new();
    upsert_into_hash_map("key".to_string(), "old".to_string(), &mut lookup);
    upsert_into_hash_map("key".to_string(), "new".to_string(), &mut lookup);
    assert_eq!(lookup.get(&"key".to_string()).unwrap(), "new");
    assert_eq!(lookup.num_entries(), 1);
}

#[test]
fn builder_test_update_variables_from_task_stanza() {
    let task = sample_test_cmd();
    let table = bind_variables(&task, &VarMap::new(), &VarMap::new());
    assert_eq!(table.get(&"default_arg".to_string()).unwrap(), "default");
}

#[test]
fn mod_test_update_variables_from_task_stanza() {
    let task = sample_test_cmd();
    let table = bind_variables(&task, &VarMap::new(), &VarMap::new());
    assert_eq!(table.get(&"default_arg".to_string()).unwrap(), "default");
    assert_eq!(table.get(&"required_arg".to_string()), None);
}

#[test]
fn builder_test_replace_string_with_args() {
    let mut lookup = VarMap::new();
    upsert_into_hash_map("test".to_string(), "test".to_string(), &mut lookup);
    let new_string = replace_string_with_args("test ${test}".to_string(), &lookup);
    assert_eq!(new_string.unwrap(), "test test");
}

#[test]
fn mod_test_replace_string_with_args() {
    let mut lookup = VarMap::new();
    upsert_into_hash_map("test".to_string(), "test".to_string(), &mut lookup);
    let new_string = replace_string_with_args("test ${test}".to_string(), &lookup);
    assert_eq!(new_string.unwrap(), "test test");
}

fn greet_task() -> TaskStanza {
    TaskStanza::new(
        "greet".to_string(),
        vec![],
        vec![
            CmdArg {
                name: "name".to_string(),
                default: Some("from default".to_string()),
                arg_type: "string".to_string(),
            },
        ],
        None,
    )
}

#[test]
fn precedence_cli_beats_context_beats_default() {
    // With all three layers binding `name`, the supplied value wins.
    let task = greet_task();
    let mut context = VarMap::new();
    context.upsert("name".to_string(), "from context".to_string());
    let mut supplied = VarMap::new();
    supplied.upsert("name".to_string(), "from cli".to_string());
    let table = bind_variables(&task, &context, &supplied);
    assert_eq!(table.get(&"name".to_string()).unwrap(), "from cli");

    // Without a supplied value the context override wins.
    let table = bind_variables(&task, &context, &VarMap::new());
    assert_eq!(table.get(&"name".to_string()).unwrap(), "from context");

    // With neither, the declared default stands.
    let table = bind_variables(&task, &VarMap::new(), &VarMap::new());
    assert_eq!(table.get(&"name".to_string()).unwrap(), "from default");
}

#[test]
fn context_binds_only_declared_names() {
    let task = greet_task();
    let mut context = VarMap::new();
    context.upsert("name".to_string(), "from context".to_string());
    context.upsert("unrelated".to_string(), "ignored".to_string());
    let table = bind_variables(&task, &context, &VarMap::new());
    assert_eq!(table.get(&"name".to_string()).unwrap(), "from context");
    assert_eq!(table.get(&"unrelated".to_string()), None);
}

fn two_arg_task() -> TaskStanza {
    TaskStanza::new(
        "pair".to_string(),
        vec![],
        vec![
            CmdArg {
                name: "arg1".to_string(),
                default: None,
                arg_type: "string".to_string(),
            },
            CmdArg {
                name: "arg2".to_string(),
                default: Some("fallback".to_string()),
                arg_type: "string".to_string(),
            },
        ],
        None,
    )
}

#[test]
fn positional_fallback_binds_token_then_default() {
    let task = two_arg_task();
    let table = bind_positional(&task, &vec!["given".to_string()], &VarMap::new()).unwrap();
    assert_eq!(table.get(&"arg1".to_string()).unwrap(), "given");
    assert_eq!(table.get(&"arg2".to_string()).unwrap(), "fallback");
}

#[test]
fn positional_fallback_fails_without_required_token() {
    let task = two_arg_task();
    let err = bind_positional(&task, &vec![], &VarMap::new()).unwrap_err();
    match err {
        UserFacingError::MissingArgError(e) => {
            assert_eq!(e.code, "MISSING_ARGUMENT");
            assert_eq!(
                e.messages,
                vec!["missing value for argument `arg1` of task `pair`".to_string()]
            );
        },
        _ => panic!("expected a missing-argument error"),
    }
}

#[test]
fn positional_context_rescues_required_argument() {
    let task = two_arg_task();
    let mut context = VarMap::new();
    context.upsert("arg1".to_string(), "from context".to_string());
    let table = bind_positional(&task, &vec![], &context).unwrap();
    assert_eq!(table.get(&"arg1".to_string()).unwrap(), "from context");
    assert_eq!(table.get(&"arg2".to_string()).unwrap(), "fallback");
}

#[test]
fn positional_tokens_beat_context_and_default() {
    let task = two_arg_task();
    let mut context = VarMap::new();
    context.upsert("arg2".to_string(), "from context".to_string());
    let table = bind_positional(
        &task,
        &vec!["one".to_string(), "two".to_string()],
        &context,
    )
    .unwrap();
    assert_eq!(table.get(&"arg1".to_string()).unwrap(), "one");
    assert_eq!(table.get(&"arg2".to_string()).unwrap(), "two");
}
