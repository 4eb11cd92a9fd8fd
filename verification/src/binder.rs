//! The variable binder: builds the effective argument table of one task
//! activation by layering, from lowest to highest precedence, the task's
//! declared defaults, the selected context's overrides (restricted to the
//! names the task declares), and the values supplied by the caller.
use vstd::prelude::*;
use vstd::string::*;

use crate::errors::{ErrWithMessage, UserFacingError};
use crate::taskfile::{CmdArg, TaskStanza};
use crate::vars::VarMap;

verus! {

/// The map of declared defaults: each argument that has a default maps to it.
pub open spec fn spec_defaults(args: Seq<CmdArg>) -> Map<Seq<char>, Seq<char>>
    decreases args.len(),
{
    if args.len() == 0 {
        Map::empty()
    } else {
        let rest = spec_defaults(args.drop_last());
        match args.last().default {
            Some(d) => rest.insert(args.last().name@, d@),
            None => rest,
        }
    }
}

/// The set of argument names a task declares.
pub open spec fn spec_declared(args: Seq<CmdArg>) -> Set<Seq<char>> {
    Set::new(|k: Seq<char>| exists|i: int| 0 <= i < args.len() && #[trigger] args[i].name@ == k)
}

/// The effective table of one activation: defaults, overlaid by the context
/// overrides whose names the task declares, overlaid by the supplied values.
pub open spec fn spec_bound_table(
    args: Seq<CmdArg>,
    context: Map<Seq<char>, Seq<char>>,
    supplied: Map<Seq<char>, Seq<char>>,
) -> Map<Seq<char>, Seq<char>> {
    spec_defaults(args).union_prefer_right(context.restrict(spec_declared(args))).union_prefer_right(
        supplied,
    )
}

/// Builds the variable table of one activation of `task`: the task's own
/// defaults, overridden by the context entries whose names the task declares,
/// overridden by the supplied values.
pub fn bind_variables(task: &TaskStanza, context: &VarMap, supplied: &VarMap) -> (r: VarMap)
    requires
        task.wf(),
        context.wf(),
        supplied.wf(),
    ensures
        r.wf(),
        r@ == spec_bound_table(task.spec_args(), context@, supplied@),
{
    let ghost args = task.spec_args();
    let mut table = VarMap::new();
    let arg_list = task.get_command_args();
    let n = arg_list.len();

    // Layer 1: declared defaults.
    let mut i: usize = 0;
    proof {
        assert(args.take(0) =~= Seq::<CmdArg>::empty());
    }
    while i < n
        invariant
            i <= n,
            n == arg_list@.len(),
            arg_list@ == args,
            table.wf(),
            table@ == spec_defaults(args.take(i as int)),
        decreases n - i,
    {
        proof {
            assert(args.take(i + 1).drop_last() =~= args.take(i as int));
            assert(args.take(i + 1).last() == args[i as int]);
        }
        match arg_list[i].get_default() {
            Some(d) => {
                let key = arg_list[i].get_name().clone();
                table.upsert(key, d.clone());
            },
            None => {},
        }
        i = i + 1;
    }
    proof {
        assert(args.take(n as int) =~= args);
    }

    // Layer 2: context overrides restricted to declared names.
    let mut i: usize = 0;
    proof {
        assert(spec_declared(args.take(0)) =~= Set::<Seq<char>>::empty());
        assert(context@.restrict(spec_declared(args.take(0))) =~= Map::<Seq<char>, Seq<char>>::empty());
        assert(table@.union_prefer_right(context@.restrict(spec_declared(args.take(0)))) =~= table@);
    }
    while i < n
        invariant
            i <= n,
            n == arg_list@.len(),
            arg_list@ == args,
            context.wf(),
            table.wf(),
            table@ == spec_defaults(args).union_prefer_right(
                context@.restrict(spec_declared(args.take(i as int))),
            ),
        decreases n - i,
    {
        let name = arg_list[i].get_name();
        let ghost prev = spec_declared(args.take(i as int));
        proof {
            assert(args.take(i + 1)[i as int] == args[i as int]);
            assert forall|k: Seq<char>| spec_declared(args.take(i + 1)).contains(k) == (prev.contains(
                k,
            ) || k == args[i as int].name@) by {
                if prev.contains(k) {
                    let j = choose|j: int|
                        0 <= j < args.take(i as int).len() && #[trigger] args.take(
                            i as int,
                        )[j].name@ == k;
                    assert(args.take(i + 1)[j].name@ == k);
                }
                if k == args[i as int].name@ {
                    assert(args.take(i + 1)[i as int].name@ == k);
                }
                if spec_declared(args.take(i + 1)).contains(k) {
                    let j = choose|j: int|
                        0 <= j < args.take(i + 1).len() && #[trigger] args.take(i + 1)[j].name@
                            == k;
                    if j < i {
                        assert(args.take(i as int)[j].name@ == k);
                    }
                }
            }
            assert(spec_declared(args.take(i + 1)) =~= prev.insert(args[i as int].name@));
        }
        match context.get(name) {
            Some(v) => {
                let ghost before = table@;
                table.upsert(name.clone(), v.clone());
                proof {
                    assert(context@.restrict(prev.insert(name@)) =~= context@.restrict(
                        prev,
                    ).insert(name@, context@[name@]));
                    assert(table@ =~= spec_defaults(args).union_prefer_right(
                        context@.restrict(spec_declared(args.take(i + 1))),
                    ));
                }
            },
            None => {
                proof {
                    assert(context@.restrict(prev.insert(name@)) =~= context@.restrict(prev));
                }
            },
        }
        i = i + 1;
    }
    proof {
        assert(args.take(n as int) =~= args);
    }

    // Layer 3: the supplied values win over everything.
    table.upsert_all(supplied);
    table
}

/// Whether the argument at index `i` of a sub-task's declaration receives a
/// value: from a positional token at `i`, from a context override of its
/// name, or from its declared default, in that order of precedence.
pub open spec fn spec_positional_has_value(
    arg: CmdArg,
    i: int,
    pos: Seq<Seq<char>>,
    context: Map<Seq<char>, Seq<char>>,
) -> bool {
    i < pos.len() || context.contains_key(arg.name@) || arg.default is Some
}

/// The value the argument at index `i` receives.
pub open spec fn spec_positional_value(
    arg: CmdArg,
    i: int,
    pos: Seq<Seq<char>>,
    context: Map<Seq<char>, Seq<char>>,
) -> Seq<char>
    recommends
        spec_positional_has_value(arg, i, pos, context),
{
    if i < pos.len() {
        pos[i]
    } else if context.contains_key(arg.name@) {
        context[arg.name@]
    } else {
        match arg.default {
            Some(d) => d@,
            None => Seq::empty(),
        }
    }
}

/// Whether every declared argument of a sub-task receives a value.
pub open spec fn spec_positional_ok(
    args: Seq<CmdArg>,
    pos: Seq<Seq<char>>,
    context: Map<Seq<char>, Seq<char>>,
) -> bool {
    forall|i: int|
        0 <= i < args.len() ==> spec_positional_has_value(#[trigger] args[i], i, pos, context)
}

/// The fresh table of a sub-task activation: each declared argument bound to
/// the value it receives.
pub open spec fn spec_positional_map(
    args: Seq<CmdArg>,
    pos: Seq<Seq<char>>,
    context: Map<Seq<char>, Seq<char>>,
) -> Map<Seq<char>, Seq<char>>
    decreases args.len(),
{
    if args.len() == 0 {
        Map::empty()
    } else {
        spec_positional_map(args.drop_last(), pos, context).insert(
            args.last().name@,
            spec_positional_value(args.last(), args.len() - 1, pos, context),
        )
    }
}

/// The least argument index that receives no value, scanning from `i`.
pub open spec fn spec_first_missing_from(
    args: Seq<CmdArg>,
    pos: Seq<Seq<char>>,
    context: Map<Seq<char>, Seq<char>>,
    i: int,
) -> int
    decreases args.len() - i,
    when 0 <= i <= args.len()
{
    if i >= args.len() {
        i
    } else if !spec_positional_has_value(args[i], i, pos, context) {
        i
    } else {
        spec_first_missing_from(args, pos, context, i + 1)
    }
}

/// The least argument index that receives no value.
pub open spec fn spec_first_missing(
    args: Seq<CmdArg>,
    pos: Seq<Seq<char>>,
    context: Map<Seq<char>, Seq<char>>,
) -> int {
    spec_first_missing_from(args, pos, context, 0)
}

proof fn lemma_first_missing_is(
    args: Seq<CmdArg>,
    pos: Seq<Seq<char>>,
    context: Map<Seq<char>, Seq<char>>,
    j: int,
    i: int,
)
    requires
        0 <= j <= i < args.len(),
        forall|k: int| j <= k < i ==> spec_positional_has_value(#[trigger] args[k], k, pos, context),
        !spec_positional_has_value(args[i], i, pos, context),
    ensures
        spec_first_missing_from(args, pos, context, j) == i,
    decreases i - j,
{
    if j < i {
        lemma_first_missing_is(args, pos, context, j + 1, i);
    }
}

/// The message of a missing-argument error.
pub open spec fn spec_missing_arg_message(arg_name: Seq<char>, task_name: Seq<char>) -> Seq<char> {
    "missing value for argument `"@ + arg_name + "` of task `"@ + task_name + "`"@
}

/// Builds the fresh variable table of one sub-task activation: the declared
/// arguments are matched by index against the positional tokens; an argument
/// beyond the tokens takes the selected context's override of its name, or
/// else its declared default; an argument with none of the three is refused
/// with a missing-argument error naming it and the sub-task.
pub fn bind_positional(sub_task: &TaskStanza, supplied_args: &Vec<String>, context: &VarMap) -> (r:
    Result<VarMap, UserFacingError>)
    requires
        sub_task.wf(),
        context.wf(),
    ensures
        r is Ok <==> spec_positional_ok(
            sub_task.spec_args(),
            supplied_args.deep_view(),
            context@,
        ),
        (r matches Ok(m) ==> m.wf() && m@ == spec_positional_map(
            sub_task.spec_args(),
            supplied_args.deep_view(),
            context@,
        )),
        (r matches Err(e) ==> {
            let k = spec_first_missing(sub_task.spec_args(), supplied_args.deep_view(), context@);
            &&& e matches UserFacingError::MissingArgError(m)
            &&& m.code@ == "MISSING_ARGUMENT"@
            &&& m.messages.deep_view() == seq![
                spec_missing_arg_message(sub_task.spec_args()[k].name@, sub_task.name@),
            ]
        }),
{
    let ghost args = sub_task.spec_args();
    let ghost pos = supplied_args.deep_view();
    let arg_list = sub_task.get_command_args();
    let n = arg_list.len();
    let mut table = VarMap::new();
    let mut i: usize = 0;
    proof {
        assert(table@ =~= spec_positional_map(args.take(0), pos, context@)) by {
            assert(args.take(0) =~= Seq::<CmdArg>::empty());
        }
    }
    while i < n
        invariant
            i <= n,
            n == arg_list@.len(),
            arg_list@ == args,
            args == sub_task.spec_args(),
            pos == supplied_args.deep_view(),
            context.wf(),
            sub_task.wf(),
            table.wf(),
            table@ == spec_positional_map(args.take(i as int), pos, context@),
            forall|k: int|
                0 <= k < i ==> spec_positional_has_value(#[trigger] args[k], k, pos, context@),
        decreases n - i,
    {
        let value: String = if i < supplied_args.len() {
            supplied_args[i].clone()
        } else {
            match context.get(&arg_list[i].name) {
                Some(v) => v.clone(),
                None => {
                    match arg_list[i].get_default() {
                        Some(d) => d.clone(),
                        None => {
                            proof {
                                assert(!spec_positional_has_value(
                                    args[i as int],
                                    i as int,
                                    pos,
                                    context@,
                                ));
                                lemma_first_missing_is(args, pos, context@, 0, i as int);
                            }
                            let mut msg = String::new();
                            msg.append("missing value for argument `");
                            msg.append(arg_list[i].name.as_str());
                            msg.append("` of task `");
                            msg.append(sub_task.name.as_str());
                            msg.append("`");
                            let mut messages: Vec<String> = Vec::new();
                            messages.push(msg);
                            let err = ErrWithMessage {
                                code: String::from_str("MISSING_ARGUMENT"),
                                messages,
                            };
                            proof {
                                assert(err.messages.deep_view() =~= seq![
                                    spec_missing_arg_message(args[i as int].name@, sub_task.name@),
                                ]);
                            }
                            return Err(UserFacingError::MissingArgError(err));
                        },
                    }
                },
            }
        };
        proof {
            assert(value@ == spec_positional_value(args[i as int], i as int, pos, context@));
            assert(args.take(i + 1).drop_last() =~= args.take(i as int));
            assert(args.take(i + 1).last() == args[i as int]);
        }
        let key = arg_list[i].get_name().clone();
        table.upsert(key, value);
        i = i + 1;
    }
    proof {
        assert(args.take(n as int) =~= args);
    }
    Ok(table)
}

/// Positional fallback: a sub-task declaring a required first argument and a
/// defaulted second one, invoked with a single positional token (and no
/// context override of either name), binds the first name to the token and
/// the second to its default; invoked with no tokens it is refused, the
/// first argument being without a value.
pub proof fn lemma_positional_fallback(
    a1: CmdArg,
    a2: CmdArg,
    tok: Seq<char>,
    dflt: String,
    context: Map<Seq<char>, Seq<char>>,
)
    requires
        a1.default is None,
        a2.default == Some(dflt),
        a1.name@ != a2.name@,
        !context.contains_key(a1.name@),
        !context.contains_key(a2.name@),
    ensures
        spec_positional_ok(seq![a1, a2], seq![tok], context),
        spec_positional_map(seq![a1, a2], seq![tok], context)[a1.name@] == tok,
        spec_positional_map(seq![a1, a2], seq![tok], context)[a2.name@] == dflt@,
        spec_positional_map(seq![a1, a2], seq![tok], context) == Map::<Seq<char>, Seq<char>>::empty(
        ).insert(a1.name@, tok).insert(a2.name@, dflt@),
        !spec_positional_ok(seq![a1, a2], Seq::<Seq<char>>::empty(), context),
{
    reveal_with_fuel(spec_positional_map, 3);
    let args = seq![a1, a2];
    assert(spec_positional_map(Seq::<CmdArg>::empty(), seq![tok], context) =~= Map::<
        Seq<char>,
        Seq<char>,
    >::empty());
    assert(args.drop_last() =~= seq![a1]);
    assert(seq![a1].drop_last() =~= Seq::<CmdArg>::empty());
    assert(spec_positional_has_value(args[0], 0, seq![tok], context));
    assert(spec_positional_has_value(args[1], 1, seq![tok], context));
    assert(spec_positional_value(a1, 0, seq![tok], context) == tok);
    assert(spec_positional_value(a2, 1, seq![tok], context) == dflt@);
    assert(spec_positional_map(seq![a1], seq![tok], context) =~= Map::<Seq<char>, Seq<char>>::empty().insert(a1.name@, tok));
    assert(spec_positional_map(args, seq![tok], context) =~= spec_positional_map(seq![a1], seq![tok], context).insert(a2.name@, dflt@));
    assert(!spec_positional_has_value(args[0], 0, Seq::<Seq<char>>::empty(), context));
}

/// Precedence: for a name bound by all three layers, the bound value is the
/// supplied one; without a supplied value it is the context override; with
/// neither it is the declared default.
pub proof fn lemma_binding_precedence(
    args: Seq<CmdArg>,
    context: Map<Seq<char>, Seq<char>>,
    supplied: Map<Seq<char>, Seq<char>>,
    k: Seq<char>,
)
    ensures
        supplied.contains_key(k) ==> spec_bound_table(args, context, supplied)[k] == supplied[k],
        !supplied.contains_key(k) && context.contains_key(k) && spec_declared(args).contains(k)
            ==> spec_bound_table(args, context, supplied)[k] == context[k],
        !supplied.contains_key(k) && !context.contains_key(k) && spec_defaults(args).contains_key(
            k,
        ) ==> spec_bound_table(args, context, supplied)[k] == spec_defaults(args)[k],
{
}

} // verus!
