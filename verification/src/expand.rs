//! The task expander: walks a task's command entries in order. A shell entry
//! substitutes to one output command. A task entry substitutes to an
//! invocation string, which is tokenized quote-aware into a sub-task name and
//! positional values; the sub-task's arguments are bound into a fresh table
//! and its commands are expanded recursively, in place. The flattened output
//! is thus the depth-first, declaration-order traversal of the nested tasks.
//!
//! A task that is already being expanded may not be invoked again below
//! itself: such a self-reference would never finish, and is refused with a
//! cycle error instead. The set of in-progress task names also bounds the
//! recursion, which is how the expander is known to terminate.
use vstd::prelude::*;
use vstd::string::*;

use crate::binder::{
    bind_positional, bind_variables, spec_bound_table, spec_first_missing, spec_missing_arg_message,
    spec_positional_map, spec_positional_ok,
};
use crate::errors::{ErrWithMessage, UserFacingError};
use crate::strings::{
    clone_string_vec, contains_string, parse_task_args_from_string, parse_task_name_from_string,
    tokenize,
};
use crate::subst::{
    replace_string_with_args, replace_string_with_args_quoted, spec_subst,
};
use crate::taskfile::{CmdArg, CommandTypes, TaskCmd, TaskStanza, Taskfile};
use crate::vars::VarMap;

verus! {

/// Why an expansion failed, in terms of the mathematical model.
pub enum ExpandErr {
    /// A `${name}` placeholder without a bound value: the name.
    MissingVariable(Seq<char>),
    /// A sub-task argument without a value: its name and the sub-task's.
    MissingArgument(Seq<char>, Seq<char>),
    /// A task entry naming no known task: the name.
    UnknownTask(Seq<char>),
    /// A script entry: its template text.
    UnimplementedCommand(Seq<char>),
    /// A task invoked while already being expanded: the name.
    CycleDetected(Seq<char>),
}

/// The names of the tasks being expanded are distinct and all exist.
pub open spec fn spec_active_ok(file: Taskfile, active: Seq<Seq<char>>) -> bool {
    &&& forall|i: int, j: int| 0 <= i < j < active.len() ==> active[i] != active[j]
    &&& forall|i: int| 0 <= i < active.len() ==> file.spec_has_task(#[trigger] active[i])
}

/// Distinct in-progress names, each naming a task, are no more numerous than
/// the tasks.
pub proof fn lemma_active_bounded(file: Taskfile, active: Seq<Seq<char>>)
    requires
        file.wf(),
        spec_active_ok(file, active),
    ensures
        active.len() <= file.tasks@.len(),
{
    broadcast use vstd::seq_lib::seq_to_set_is_finite;

    let names = file.tasks@.map_values(|t: TaskStanza| t.name@);
    assert forall|k: Seq<char>| active.to_set().contains(k) implies names.to_set().contains(k) by {
        let i = choose|i: int| 0 <= i < active.len() && active[i] == k;
        assert(file.spec_has_task(active[i]));
        let j = choose|j: int| 0 <= j < file.tasks@.len() && #[trigger] file.tasks@[j].name@ == k;
        assert(names[j] == k);
        assert(names.contains(k));
    }
    assert(active.no_duplicates());
    active.unique_seq_to_set();
    names.lemma_cardinality_of_set();
    vstd::set_lib::lemma_len_subset(active.to_set(), names.to_set());
}

/// The expansion of one command entry against the current table. A shell
/// entry is one output command: its template substituted plainly. A task
/// entry is the recursive expansion of the named sub-task under a fresh
/// table; its template is substituted with quoting and tokenized, the first
/// token naming the sub-task and the rest being positional values. A script
/// entry is not implemented.
pub open spec fn spec_expand_cmd(
    file: Taskfile,
    cmd: TaskCmd,
    vars: Map<Seq<char>, Seq<char>>,
    context: Map<Seq<char>, Seq<char>>,
    active: Seq<Seq<char>>,
) -> Result<Seq<Seq<char>>, ExpandErr>
    decreases file.tasks@.len() - active.len(), 0int, 0int,
    when file.wf() && spec_active_ok(file, active)
    via spec_expand_cmd_decreases
{
    match cmd.key {
        CommandTypes::Shell(_) => match spec_subst(cmd.value@, vars, false) {
            Ok(s) => Ok(seq![s]),
            Err(n) => Err(ExpandErr::MissingVariable(n)),
        },
        CommandTypes::Task(_) => match spec_subst(cmd.value@, vars, true) {
            Err(n) => Err(ExpandErr::MissingVariable(n)),
            Ok(invocation) => {
                let toks = tokenize(invocation);
                let sub_name = toks[0];
                let sub_args = toks.skip(1);
                if !file.spec_has_task(sub_name) {
                    Err(ExpandErr::UnknownTask(sub_name))
                } else if active.contains(sub_name) {
                    Err(ExpandErr::CycleDetected(sub_name))
                } else {
                    let sub = file.spec_task(sub_name);
                    if !spec_positional_ok(sub.spec_args(), sub_args, context) {
                        let k = spec_first_missing(sub.spec_args(), sub_args, context);
                        Err(ExpandErr::MissingArgument(sub.spec_args()[k].name@, sub.name@))
                    } else {
                        spec_expand_cmds(
                            file,
                            sub.commands@,
                            spec_positional_map(sub.spec_args(), sub_args, context),
                            context,
                            active.push(sub_name),
                        )
                    }
                }
            },
        },
        CommandTypes::Script(_) => Err(ExpandErr::UnimplementedCommand(cmd.value@)),
    }
}

/// The expansion of a command list: each entry expanded in order, the
/// results concatenated; the first failing entry fails the whole list.
pub open spec fn spec_expand_cmds(
    file: Taskfile,
    cmds: Seq<TaskCmd>,
    vars: Map<Seq<char>, Seq<char>>,
    context: Map<Seq<char>, Seq<char>>,
    active: Seq<Seq<char>>,
) -> Result<Seq<Seq<char>>, ExpandErr>
    decreases file.tasks@.len() - active.len(), 1int, cmds.len(),
    when file.wf() && spec_active_ok(file, active)
{
    if cmds.len() == 0 {
        Ok(Seq::empty())
    } else {
        match spec_expand_cmd(file, cmds[0], vars, context, active) {
            Err(e) => Err(e),
            Ok(head) => match spec_expand_cmds(file, cmds.drop_first(), vars, context, active) {
                Err(e) => Err(e),
                Ok(tail) => Ok(head + tail),
            },
        }
    }
}

#[via_fn]
proof fn spec_expand_cmd_decreases(
    file: Taskfile,
    cmd: TaskCmd,
    vars: Map<Seq<char>, Seq<char>>,
    context: Map<Seq<char>, Seq<char>>,
    active: Seq<Seq<char>>,
) {
    if cmd.key matches CommandTypes::Task(_) {
        match spec_subst(cmd.value@, vars, true) {
            Ok(invocation) => {
                let toks = tokenize(invocation);
                let sub_name = toks[0];
                if file.spec_has_task(sub_name) && !active.contains(sub_name) {
                    let pushed = active.push(sub_name);
                    assert forall|i: int, j: int| 0 <= i < j < pushed.len() implies pushed[i]
                        != pushed[j] by {
                        if j == pushed.len() - 1 {
                            if pushed[i] == sub_name {
                                assert(active.contains(active[i]));
                            }
                        }
                    }
                    assert(spec_active_ok(file, pushed));
                    lemma_active_bounded(file, pushed);
                }
            },
            Err(_) => {},
        }
    }
}

/// How an expansion failure is reported: the error variant, its code, and
/// its one-message stack, for each way an expansion can fail.
pub open spec fn spec_err_matches(e: UserFacingError, k: ExpandErr) -> bool {
    match k {
        ExpandErr::MissingVariable(n) => {
            &&& e matches UserFacingError::MissingArgError(m)
            &&& m.code@ == "MISSING_VARIABLE"@
            &&& m.messages.deep_view() == seq!["variable string is "@ + n]
        },
        ExpandErr::MissingArgument(a, t) => {
            &&& e matches UserFacingError::MissingArgError(m)
            &&& m.code@ == "MISSING_ARGUMENT"@
            &&& m.messages.deep_view() == seq![spec_missing_arg_message(a, t)]
        },
        ExpandErr::UnknownTask(n) => {
            &&& e matches UserFacingError::TaskDoesNotExist(m)
            &&& m.code@ == "TASK_ERROR"@
            &&& m.messages.deep_view() == seq!["no task named `"@ + n + "`"@]
        },
        ExpandErr::UnimplementedCommand(v) => {
            &&& e matches UserFacingError::UnimplementedCommand(m)
            &&& m.code@ == "UNIMPLEMENTED_COMMAND"@
            &&& m.messages.deep_view() == seq!["script commands are not implemented: "@ + v]
        },
        ExpandErr::CycleDetected(n) => {
            &&& e matches UserFacingError::CycleDetected(m)
            &&& m.code@ == "CYCLE_ERROR"@
            &&& m.messages.deep_view() == seq!["task `"@ + n + "` invokes itself"@]
        },
    }
}

fn one_message_error(code: &str, message: String) -> (r: ErrWithMessage)
    ensures
        r.code@ == code@,
        r.messages.deep_view() == seq![message@],
    {
    let mut messages: Vec<String> = Vec::new();
    let ghost gm = message@;
    messages.push(message);
    proof {
        assert(messages.deep_view() =~= seq![gm]);
    }
    ErrWithMessage { code: String::from_str(code), messages }
}

/// Expands the command entries against the given table; `active` holds the
/// names of the tasks whose expansion is in progress, the current one last.
fn expand_with_active(
    file: &Taskfile,
    cmds: &Vec<TaskCmd>,
    vars: &VarMap,
    context: &VarMap,
    active: &Vec<String>,
) -> (r: Result<Vec<String>, UserFacingError>)
    requires
        file.wf(),
        vars.wf(),
        context.wf(),
        spec_active_ok(*file, active@.map_values(|t: String| t@)),
    ensures
        (r is Ok) == (spec_expand_cmds(
            *file,
            cmds@,
            vars@,
            context@,
            active@.map_values(|t: String| t@),
        ) is Ok),
        (r matches Ok(v) ==> Ok::<Seq<Seq<char>>, ExpandErr>(v@.map_values(|t: String| t@))
            == spec_expand_cmds(*file, cmds@, vars@, context@, active@.map_values(|t: String| t@))),
        (r matches Err(e) ==> {
            &&& spec_expand_cmds(*file, cmds@, vars@, context@, active@.map_values(|t: String| t@))
                matches Err(k)
            &&& spec_err_matches(e, k)
        }),
    decreases file.tasks@.len() - active@.len(),
{
    let ghost act = active@.map_values(|t: String| t@);
    let ghost m = vars@;
    let ghost ctx = context@;
    let ghost whole = spec_expand_cmds(*file, cmds@, m, ctx, act);
    let n = cmds.len();
    let mut out: Vec<String> = Vec::new();
    let mut idx: usize = 0;
    proof {
        assert(cmds@.skip(0) =~= cmds@);
        assert(out@.map_values(|t: String| t@) =~= Seq::<Seq<char>>::empty());
    }
    while idx < n
        invariant
            idx <= n,
            n == cmds@.len(),
            file.wf(),
            vars.wf(),
            context.wf(),
            m == vars@,
            ctx == context@,
            act == active@.map_values(|t: String| t@),
            act.len() == active@.len(),
            spec_active_ok(*file, act),
            whole == spec_expand_cmds(*file, cmds@, m, ctx, act),
            (spec_expand_cmds(*file, cmds@.skip(idx as int), m, ctx, act) is Ok ==> whole is Ok
                && whole->Ok_0 == out@.map_values(|t: String| t@) + spec_expand_cmds(
                *file,
                cmds@.skip(idx as int),
                m,
                ctx,
                act,
            )->Ok_0),
            (spec_expand_cmds(*file, cmds@.skip(idx as int), m, ctx, act) is Err ==> whole
                == spec_expand_cmds(*file, cmds@.skip(idx as int), m, ctx, act)),
        decreases n - idx,
    {
        let ghost rem_next = spec_expand_cmds(*file, cmds@.skip(idx as int + 1), m, ctx, act);
        proof {
            assert(cmds@.skip(idx as int)[0] == cmds@[idx as int]);
            assert(cmds@.skip(idx as int).drop_first() =~= cmds@.skip(idx as int + 1));
        }
        let ghost cmd_res = spec_expand_cmd(*file, cmds@[idx as int], m, ctx, act);
        let cmd = &cmds[idx];
        match &cmd.key {
            CommandTypes::Shell(_) => {
                match replace_string_with_args(cmd.value.clone(), vars) {
                    Ok(s) => {
                        let ghost before = out@.map_values(|t: String| t@);
                        let ghost sv = s@;
                        out.push(s);
                        proof {
                            assert(cmd_res == Ok::<Seq<Seq<char>>, ExpandErr>(seq![sv]));
                            assert(out@.map_values(|t: String| t@) =~= before.push(sv));
                            if rem_next is Ok {
                                assert(before + (seq![sv] + rem_next->Ok_0) =~= before.push(sv)
                                    + rem_next->Ok_0);
                            }
                        }
                    },
                    Err(e) => {
                        proof {
                            assert(cmd_res matches Err(k) && k matches ExpandErr::MissingVariable(
                                nm,
                            ) && e.message@ == "variable string is "@ + nm);
                        }
                        let err = one_message_error("MISSING_VARIABLE", e.message);
                        return Err(UserFacingError::MissingArgError(err));
                    },
                }
            },
            CommandTypes::Task(_) => {
                let invocation = match replace_string_with_args_quoted(cmd.value.clone(), vars) {
                    Ok(s) => s,
                    Err(e) => {
                        proof {
                            assert(cmd_res matches Err(k) && k matches ExpandErr::MissingVariable(
                                nm,
                            ) && e.message@ == "variable string is "@ + nm);
                        }
                        let err = one_message_error("MISSING_VARIABLE", e.message);
                        return Err(UserFacingError::MissingArgError(err));
                    },
                };
                proof {
                    crate::strings::lemma_tokenize_nonempty(invocation@);
                }
                let ghost toks = tokenize(invocation@);
                let sub_name = parse_task_name_from_string(&invocation);
                let sub_args = parse_task_args_from_string(&invocation);
                let sub_task = match file.get_task_by_name(&sub_name) {
                    Some(t) => t,
                    None => {
                        proof {
                            assert(cmd_res == Err::<Seq<Seq<char>>, ExpandErr>(
                                ExpandErr::UnknownTask(toks[0]),
                            ));
                        }
                        let mut msg = String::new();
                        msg.append("no task named `");
                        msg.append(sub_name.as_str());
                        msg.append("`");
                        let err = one_message_error("TASK_ERROR", msg);
                        return Err(UserFacingError::TaskDoesNotExist(err));
                    },
                };
                if contains_string(active, &sub_name) {
                    proof {
                        assert(cmd_res == Err::<Seq<Seq<char>>, ExpandErr>(
                            ExpandErr::CycleDetected(toks[0]),
                        ));
                    }
                    let mut msg = String::new();
                    msg.append("task `");
                    msg.append(sub_name.as_str());
                    msg.append("` invokes itself");
                    let err = one_message_error("CYCLE_ERROR", msg);
                    return Err(UserFacingError::CycleDetected(err));
                }
                proof {
                    assert(*sub_task == file.spec_task(toks[0]));
                    assert(sub_task.wf()) by {
                        let j = choose|j: int|
                            0 <= j < file.tasks@.len() && #[trigger] file.tasks@[j].name@
                                == toks[0];
                        assert(file.tasks@[j].wf());
                    }
                    assert(sub_args@.map_values(|t: String| t@) == toks.skip(1));
                    assert(sub_args.deep_view() =~= sub_args@.map_values(|t: String| t@));
                }
                let sub_vars = match bind_positional(sub_task, &sub_args, context) {
                    Ok(v) => v,
                    Err(e) => {
                        proof {
                            assert(cmd_res matches Err(k) && spec_err_matches(e, k));
                        }
                        return Err(e);
                    },
                };
                let mut new_active = clone_string_vec(active);
                new_active.push(sub_name.clone());
                let ghost pushed = act.push(toks[0]);
                proof {
                    assert(new_active@.map_values(|t: String| t@) =~= pushed);
                    assert forall|i: int, j: int| 0 <= i < j < pushed.len() implies pushed[i]
                        != pushed[j] by {
                        if j == pushed.len() - 1 {
                            if pushed[i] == toks[0] {
                                assert(act.contains(act[i]));
                            }
                        }
                    }
                    assert(spec_active_ok(*file, pushed));
                    lemma_active_bounded(*file, pushed);
                }
                let mut sub_out = match expand_with_active(
                    file,
                    &sub_task.commands,
                    &sub_vars,
                    context,
                    &new_active,
                ) {
                    Ok(v) => v,
                    Err(e) => {
                        proof {
                            assert(cmd_res matches Err(k) && spec_err_matches(e, k));
                        }
                        return Err(e);
                    },
                };
                let ghost before = out@.map_values(|t: String| t@);
                let ghost sub_seq = sub_out@.map_values(|t: String| t@);
                out.append(&mut sub_out);
                proof {
                    assert(cmd_res == Ok::<Seq<Seq<char>>, ExpandErr>(sub_seq));
                    assert(out@.map_values(|t: String| t@) =~= before + sub_seq);
                    if rem_next is Ok {
                        assert(before + (sub_seq + rem_next->Ok_0) =~= (before + sub_seq)
                            + rem_next->Ok_0);
                    }
                }
            },
            CommandTypes::Script(_) => {
                proof {
                    assert(cmd_res == Err::<Seq<Seq<char>>, ExpandErr>(
                        ExpandErr::UnimplementedCommand(cmds@[idx as int].value@),
                    ));
                }
                let mut msg = String::new();
                msg.append("script commands are not implemented: ");
                msg.append(cmd.value.as_str());
                let err = one_message_error("UNIMPLEMENTED_COMMAND", msg);
                return Err(UserFacingError::UnimplementedCommand(err));
            },
        }
        idx = idx + 1;
    }
    proof {
        assert(cmds@.skip(n as int) =~= Seq::<TaskCmd>::empty());
        assert(out@.map_values(|t: String| t@) + Seq::<Seq<char>>::empty() =~= out@.map_values(
            |t: String| t@,
        ));
    }
    Ok(out)
}

/// Expands a task into its flat, ordered list of resolved shell command
/// strings, against the given variable table and context overrides.
pub fn get_all_commands_parsed(
    file: &Taskfile,
    task: &TaskStanza,
    current_variables: &VarMap,
    context: &VarMap,
) -> (r: Result<Vec<String>, UserFacingError>)
    requires
        file.wf(),
        current_variables.wf(),
        context.wf(),
        file.spec_has_task(task.name@),
        file.spec_task(task.name@) == *task,
    ensures
        (r is Ok) == (spec_expand_cmds(
            *file,
            task.commands@,
            current_variables@,
            context@,
            seq![task.name@],
        ) is Ok),
        (r matches Ok(v) ==> Ok::<Seq<Seq<char>>, ExpandErr>(v@.map_values(|t: String| t@))
            == spec_expand_cmds(
            *file,
            task.commands@,
            current_variables@,
            context@,
            seq![task.name@],
        )),
        (r matches Err(e) ==> {
            &&& spec_expand_cmds(
                *file,
                task.commands@,
                current_variables@,
                context@,
                seq![task.name@],
            ) matches Err(k)
            &&& spec_err_matches(e, k)
        }),
{
    let mut active: Vec<String> = Vec::new();
    active.push(task.name.clone());
    proof {
        assert(active@.map_values(|t: String| t@) =~= seq![task.name@]);
    }
    expand_with_active(file, &task.commands, current_variables, context, &active)
}

/// Expansion order: a command list `[Shell(a), Task(b), Shell(c)]` that
/// expands successfully yields exactly the substitution of `a`, then every
/// command of the task entry's expansion in order, then the substitution of
/// `c`: depth-first, in declaration order.
pub proof fn lemma_expansion_order(
    file: Taskfile,
    sha: TaskCmd,
    tkb: TaskCmd,
    shc: TaskCmd,
    vars: Map<Seq<char>, Seq<char>>,
    context: Map<Seq<char>, Seq<char>>,
    active: Seq<Seq<char>>,
)
    requires
        file.wf(),
        spec_active_ok(file, active),
        sha.key matches CommandTypes::Shell(_),
        tkb.key matches CommandTypes::Task(_),
        shc.key matches CommandTypes::Shell(_),
        spec_expand_cmds(file, seq![sha, tkb, shc], vars, context, active) is Ok,
    ensures
        spec_subst(sha.value@, vars, false) is Ok,
        spec_subst(shc.value@, vars, false) is Ok,
        spec_expand_cmd(file, tkb, vars, context, active) is Ok,
        spec_expand_cmds(file, seq![sha, tkb, shc], vars, context, active)->Ok_0 == seq![
            spec_subst(sha.value@, vars, false)->Ok_0,
        ] + spec_expand_cmd(file, tkb, vars, context, active)->Ok_0 + seq![
            spec_subst(shc.value@, vars, false)->Ok_0,
        ],
{
    let cmds = seq![sha, tkb, shc];
    let c1 = cmds.drop_first();
    let c2 = c1.drop_first();
    let c3 = c2.drop_first();
    assert(c1 =~= seq![tkb, shc]);
    assert(c2 =~= seq![shc]);
    assert(c3 =~= Seq::<TaskCmd>::empty());
    assert(cmds[0] == sha && c1[0] == tkb && c2[0] == shc);
    let ra = spec_expand_cmd(file, sha, vars, context, active);
    let rb = spec_expand_cmd(file, tkb, vars, context, active);
    let rc = spec_expand_cmd(file, shc, vars, context, active);
    let r_all = spec_expand_cmds(file, cmds, vars, context, active);
    let r1 = spec_expand_cmds(file, c1, vars, context, active);
    let r2 = spec_expand_cmds(file, c2, vars, context, active);
    let r3 = spec_expand_cmds(file, c3, vars, context, active);
    assert(r3 == Ok::<Seq<Seq<char>>, ExpandErr>(Seq::empty()));
    assert(r_all is Ok);
    assert(ra is Ok && r1 is Ok);
    assert(rb is Ok && r2 is Ok);
    assert(rc is Ok && r3 is Ok);
    assert(r2->Ok_0 == rc->Ok_0 + r3->Ok_0);
    assert(r1->Ok_0 == rb->Ok_0 + r2->Ok_0);
    assert(r_all->Ok_0 == ra->Ok_0 + r1->Ok_0);
    assert(ra->Ok_0 == seq![spec_subst(sha.value@, vars, false)->Ok_0]);
    assert(rc->Ok_0 == seq![spec_subst(shc.value@, vars, false)->Ok_0]);
    assert(r_all->Ok_0 =~= seq![spec_subst(sha.value@, vars, false)->Ok_0] + rb->Ok_0 + seq![
        spec_subst(shc.value@, vars, false)->Ok_0,
    ]);
}

/// Positional fallback, seen at a task entry: an invocation that names
/// sub-task `sub` with exactly one positional token, where `sub` declares a
/// required first argument and a defaulted second one and the context
/// overrides neither, expands `sub`'s commands under exactly the fresh table
/// binding the first name to the token and the second to its default.
pub proof fn lemma_expand_positional_fallback(
    file: Taskfile,
    cmd: TaskCmd,
    vars: Map<Seq<char>, Seq<char>>,
    context: Map<Seq<char>, Seq<char>>,
    active: Seq<Seq<char>>,
    invocation: Seq<char>,
    tok: Seq<char>,
    sub: TaskStanza,
    a1: CmdArg,
    a2: CmdArg,
    dflt: String,
)
    requires
        file.wf(),
        spec_active_ok(file, active),
        cmd.key matches CommandTypes::Task(_),
        spec_subst(cmd.value@, vars, true) == Ok::<Seq<char>, Seq<char>>(invocation),
        tokenize(invocation) == seq![sub.name@, tok],
        file.spec_has_task(sub.name@),
        file.spec_task(sub.name@) == sub,
        !active.contains(sub.name@),
        sub.spec_args() == seq![a1, a2],
        a1.default is None,
        a2.default == Some(dflt),
        !context.contains_key(a1.name@),
        !context.contains_key(a2.name@),
    ensures
        spec_expand_cmd(file, cmd, vars, context, active) == spec_expand_cmds(
            file,
            sub.commands@,
            Map::<Seq<char>, Seq<char>>::empty().insert(a1.name@, tok).insert(a2.name@, dflt@),
            context,
            active.push(sub.name@),
        ),
{
    let toks = tokenize(invocation);
    assert(toks[0] == sub.name@);
    assert(toks.skip(1) =~= seq![tok]);
    crate::binder::lemma_positional_fallback(a1, a2, tok, dflt, context);
    assert(spec_positional_ok(sub.spec_args(), toks.skip(1), context));
    assert(spec_positional_map(sub.spec_args(), toks.skip(1), context) == Map::<
        Seq<char>,
        Seq<char>,
    >::empty().insert(a1.name@, tok).insert(a2.name@, dflt@));
}

/// Missing argument, seen at a task entry: an invocation that names sub-task
/// `sub` with no positional tokens, where `sub`'s first declared argument has
/// no default and no context override, fails the expansion with the
/// missing-argument error naming that argument and `sub`.
pub proof fn lemma_expand_missing_argument(
    file: Taskfile,
    cmd: TaskCmd,
    vars: Map<Seq<char>, Seq<char>>,
    context: Map<Seq<char>, Seq<char>>,
    active: Seq<Seq<char>>,
    invocation: Seq<char>,
    sub: TaskStanza,
)
    requires
        file.wf(),
        spec_active_ok(file, active),
        cmd.key matches CommandTypes::Task(_),
        spec_subst(cmd.value@, vars, true) == Ok::<Seq<char>, Seq<char>>(invocation),
        tokenize(invocation) == seq![sub.name@],
        file.spec_has_task(sub.name@),
        file.spec_task(sub.name@) == sub,
        !active.contains(sub.name@),
        sub.spec_args().len() > 0,
        sub.spec_args()[0].default is None,
        !context.contains_key(sub.spec_args()[0].name@),
    ensures
        spec_expand_cmd(file, cmd, vars, context, active) == Err::<Seq<Seq<char>>, ExpandErr>(
            ExpandErr::MissingArgument(sub.spec_args()[0].name@, sub.name@),
        ),
{
    let toks = tokenize(invocation);
    assert(toks[0] == sub.name@);
    let pos = toks.skip(1);
    assert(pos =~= Seq::<Seq<char>>::empty());
    assert(!crate::binder::spec_positional_has_value(sub.spec_args()[0], 0, pos, context));
    assert(!spec_positional_ok(sub.spec_args(), pos, context));
    assert(spec_first_missing(sub.spec_args(), pos, context) == 0);
}

/// Resolves one requested task: looks the task up by name, selects the
/// context overrides, binds the variable table from defaults, context and
/// supplied values, and expands the task into its flat command list.
pub fn create_command_strings(
    file: &Taskfile,
    task_name: &String,
    context_name: Option<String>,
    supplied: &VarMap,
) -> (r: Result<Vec<String>, UserFacingError>)
    requires
        file.wf(),
        supplied.wf(),
    ensures
        !file.spec_has_task(task_name@) ==> {
            &&& r matches Err(e)
            &&& e matches UserFacingError::TaskDoesNotExist(m)
            &&& m.code@ == "TASK_ERROR"@
            &&& m.messages.deep_view() == seq!["no task named `"@ + task_name@ + "`"@]
        },
        file.spec_has_task(task_name@) ==> {
            let task = file.spec_task(task_name@);
            let ctx = match context_name {
                Some(n) => file.spec_context_vars(n@),
                None => Map::<Seq<char>, Seq<char>>::empty(),
            };
            let table = spec_bound_table(task.spec_args(), ctx, supplied@);
            let res = spec_expand_cmds(*file, task.commands@, table, ctx, seq![task_name@]);
            &&& (r is Ok) == (res is Ok)
            &&& (r matches Ok(v) ==> Ok::<Seq<Seq<char>>, ExpandErr>(v@.map_values(|t: String| t@))
                == res)
            &&& (r matches Err(e) ==> res matches Err(k) && spec_err_matches(e, k))
        },
{
    let task = match file.get_task_by_name(task_name) {
        Some(t) => t,
        None => {
            let mut msg = String::new();
            msg.append("no task named `");
            msg.append(task_name.as_str());
            msg.append("`");
            let err = one_message_error("TASK_ERROR", msg);
            return Err(UserFacingError::TaskDoesNotExist(err));
        },
    };
    proof {
        assert(task.name@ == task_name@) by {
            let j = choose|j: int|
                0 <= j < file.tasks@.len() && #[trigger] file.tasks@[j].name@ == task_name@;
            assert(file.spec_task(task_name@) == file.tasks@[j]);
        }
        assert(task.wf()) by {
            let j = choose|j: int|
                0 <= j < file.tasks@.len() && #[trigger] file.tasks@[j].name@ == task_name@;
            assert(file.tasks@[j].wf());
        }
    }
    let context = file.get_context(context_name);
    let table = bind_variables(task, &context, supplied);
    get_all_commands_parsed(file, task, &table, &context)
}

} // verus!
