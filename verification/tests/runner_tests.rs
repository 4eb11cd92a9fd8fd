use tasker::runner::{create_task_runner, usize_to_string, TaskRunner};
use tasker::taskfile::{CmdArg, CommandTypes, TaskCmd, TaskStanza, Taskfile};
use tasker::vars::VarMap;

#[test]
fn usize_to_string_renders_decimal() {
    assert_eq!(usize_to_string(0), "0");
    assert_eq!(usize_to_string(7), "7");
    assert_eq!(usize_to_string(10), "10");
    assert_eq!(usize_to_string(305), "305");
    assert_eq!(usize_to_string(12040), "12040");
}

#[test]
fn dry_run_has_one_indexed_line_per_command() {
    let commands: Vec<String> = (0..12).map(|i| format!("cmd number {}", i)).collect();
    let runner = TaskRunner::new(commands.clone());
    let lines = runner.dry_run_lines();
    assert_eq!(lines.len(), commands.len());
    for (i, line) in lines.iter().enumerate() {
        assert!(line.starts_with(&format!("{}", i)));
        assert_eq!(line, &format!("{}: {}", i, commands[i]));
    }
}

#[test]
fn dry_run_of_no_commands_is_empty() {
    let runner = TaskRunner::new(vec![]);
    assert_eq!(runner.dry_run_lines().len(), 0);
}

#[test]
fn parse_strings_into_commands_splits_programs_and_args() {
    let runner = TaskRunner::new(vec![
        "echo hello world".to_string(),
        "ls".to_string(),
    ]);
    let parsed = runner.parse_strings_into_commands().unwrap();
    assert_eq!(parsed.len(), 2);
    assert_eq!(parsed[0].program, "echo");
    assert_eq!(parsed[0].args, vec!["hello", "world"]);
    assert_eq!(parsed[1].program, "ls");
    assert!(parsed[1].args.is_empty());
}

#[test]
fn parse_strings_into_commands_rejects_blank_commands() {
    let runner = TaskRunner::new(vec!["echo ok".to_string(), "  ".to_string()]);
    assert!(runner.parse_strings_into_commands().is_err());
}

#[test]
fn create_task_runner_holds_resolved_commands() {
    let greet = TaskStanza::new(
        "greet".to_string(),
        vec![TaskCmd {
            key: CommandTypes::Shell("shell".to_string()),
            value: "echo ${first} ${last}".to_string(),
        }],
        vec![
            CmdArg { name: "first".to_string(), default: None, arg_type: "string".to_string() },
            CmdArg {
                name: "last".to_string(),
                default: Some("the First".to_string()),
                arg_type: "string".to_string(),
            },
        ],
        None,
    );
    let file = Taskfile { contexts: vec![], tasks: vec![greet] };
    let mut supplied = VarMap::new();
    supplied.upsert("first".to_string(), "Peter".to_string());
    let runner = create_task_runner(&file, &"greet".to_string(), None, &supplied).unwrap();
    assert_eq!(runner.num_commands(), 1);
    assert_eq!(runner.command_at(0), "echo Peter the First");
    let lines = runner.dry_run_lines();
    assert_eq!(lines, vec!["0: echo Peter the First"]);
}
