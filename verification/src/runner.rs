//! The executor's verified half: a resolved command string is split on
//! whitespace into a program name and argument tokens, and a dry run is
//! rendered as one indexed line per command.
//!
//! Unlike the quote-aware splitter used for task invocation strings, this
//! split is deliberately naive: double quotes are kept and split apart like
//! any other character, as the process arguments are built today. The
//! process spawning itself is plain I/O and lives outside this crate.
use vstd::prelude::*;
use vstd::string::*;

use crate::errors::{ErrWithMessage, ExecutionError, UserFacingError};
use crate::expand::{create_command_strings, spec_err_matches, ExpandErr};
use crate::strings::{chars_to_string, str_to_chars};
use crate::taskfile::Taskfile;
use crate::vars::VarMap;

verus! {

/// The characters the naive split treats as separators: the characters with
/// the Unicode `White_Space` property, as `str::split_whitespace` separates.
pub open spec fn spec_is_blank(c: char) -> bool {
    ||| c == '\t'
    ||| c == '\n'
    ||| c == '\u{000B}'
    ||| c == '\u{000C}'
    ||| c == '\r'
    ||| c == ' '
    ||| c == '\u{0085}'
    ||| c == '\u{00A0}'
    ||| c == '\u{1680}'
    ||| c == '\u{2000}'
    ||| c == '\u{2001}'
    ||| c == '\u{2002}'
    ||| c == '\u{2003}'
    ||| c == '\u{2004}'
    ||| c == '\u{2005}'
    ||| c == '\u{2006}'
    ||| c == '\u{2007}'
    ||| c == '\u{2008}'
    ||| c == '\u{2009}'
    ||| c == '\u{200A}'
    ||| c == '\u{2028}'
    ||| c == '\u{2029}'
    ||| c == '\u{202F}'
    ||| c == '\u{205F}'
    ||| c == '\u{3000}'
}

/// Tells whether a character separates command tokens.
fn is_blank(c: char) -> (r: bool)
    ensures
        r == spec_is_blank(c),
{
    c == '\t' || c == '\n' || c == '\u{000B}' || c == '\u{000C}' || c == '\r' || c == ' ' || c
        == '\u{0085}' || c == '\u{00A0}' || c == '\u{1680}' || c == '\u{2000}' || c == '\u{2001}'
        || c == '\u{2002}' || c == '\u{2003}' || c == '\u{2004}' || c == '\u{2005}' || c
        == '\u{2006}' || c == '\u{2007}' || c == '\u{2008}' || c == '\u{2009}' || c == '\u{200A}'
        || c == '\u{2028}' || c == '\u{2029}' || c == '\u{202F}' || c == '\u{205F}' || c
        == '\u{3000}'
}

/// One step of the naive whitespace split: a whitespace character finishes
/// the current token (empty tokens are dropped), any other character extends
/// it.
pub open spec fn ws_tokens_from(s: Seq<char>, i: int, cur: Seq<char>, acc: Seq<Seq<char>>) -> Seq<
    Seq<char>,
>
    decreases s.len() - i,
    when 0 <= i <= s.len()
{
    if i >= s.len() {
        if cur.len() == 0 {
            acc
        } else {
            acc.push(cur)
        }
    } else if spec_is_blank(s[i]) {
        if cur.len() == 0 {
            ws_tokens_from(s, i + 1, cur, acc)
        } else {
            ws_tokens_from(s, i + 1, Seq::empty(), acc.push(cur))
        }
    } else {
        ws_tokens_from(s, i + 1, cur.push(s[i]), acc)
    }
}

/// The naive whitespace split of a whole string: maximal runs of
/// non-whitespace characters, in order.
pub open spec fn ws_tokens(s: Seq<char>) -> Seq<Seq<char>> {
    ws_tokens_from(s, 0, Seq::empty(), Seq::empty())
}

/// A command ready to spawn: a program name and its argument tokens.
#[derive(Debug)]
pub struct ParsedCommand {
    pub program: String,
    pub args: Vec<String>,
}

/// Splits a resolved command string into its program name (the first token)
/// and argument tokens. A string without tokens is refused.
pub fn parse_command_from_string(command: String) -> (r: Result<ParsedCommand, ExecutionError>)
    ensures
        (r is Ok) == (ws_tokens(command@).len() > 0),
        (r matches Ok(pc) ==> {
            &&& pc.program@ == ws_tokens(command@)[0]
            &&& pc.args@.map_values(|t: String| t@) == ws_tokens(command@).skip(1)
        }),
        (r matches Err(e) ==> {
            &&& e matches ExecutionError::CommandNotFound(m)
            &&& m.code@ == "MISSING_CMD"@
            &&& m.messages.deep_view() == seq![
                "command could not be parsed from cmd string: "@ + command@,
            ]
        }),
{
    let ghost t = command@;
    let chars = str_to_chars(command.as_str());
    let n = chars.len();
    let mut tokens: Vec<String> = Vec::new();
    let mut current: Vec<char> = Vec::new();
    let mut i: usize = 0;
    proof {
        assert(tokens@.map_values(|x: String| x@) =~= Seq::<Seq<char>>::empty());
    }
    while i < n
        invariant
            i <= n,
            n == chars@.len(),
            chars@ == t,
            ws_tokens(t) == ws_tokens_from(
                t,
                i as int,
                current@,
                tokens@.map_values(|x: String| x@),
            ),
        decreases n - i,
    {
        let ghost prev = tokens@.map_values(|x: String| x@);
        let c = chars[i];
        if is_blank(c) {
            if current.len() > 0 {
                let token = chars_to_string(&current);
                tokens.push(token);
                current = Vec::new();
                proof {
                    assert(tokens@.map_values(|x: String| x@) =~= prev.push(token@));
                }
            }
        } else {
            current.push(c);
        }
        i = i + 1;
    }
    if current.len() > 0 {
        let ghost prev = tokens@.map_values(|x: String| x@);
        let token = chars_to_string(&current);
        tokens.push(token);
        proof {
            assert(tokens@.map_values(|x: String| x@) =~= prev.push(token@));
        }
    }
    let ghost toks = ws_tokens(t);
    if tokens.len() == 0 {
        let mut msg = String::new();
        msg.append("command could not be parsed from cmd string: ");
        msg.append(command.as_str());
        let ghost gm = msg@;
        let mut messages: Vec<String> = Vec::new();
        messages.push(msg);
        proof {
            assert(messages.deep_view() =~= seq![gm]);
        }
        return Err(ExecutionError::CommandNotFound(ErrWithMessage {
            code: String::from_str("MISSING_CMD"),
            messages,
        }));
    }
    let program = tokens[0].clone();
    let m = tokens.len();
    let mut args: Vec<String> = Vec::new();
    let mut j: usize = 1;
    proof {
        assert(tokens@.map_values(|x: String| x@)[0] == tokens@[0]@);
        assert(args@.map_values(|x: String| x@) =~= toks.subrange(1, 1));
    }
    while j < m
        invariant
            1 <= j <= m,
            m == tokens@.len(),
            tokens@.map_values(|x: String| x@) == toks,
            m == toks.len(),
            args@.map_values(|x: String| x@) == toks.subrange(1, j as int),
        decreases m - j,
    {
        let ghost prev = args@.map_values(|x: String| x@);
        args.push(tokens[j].clone());
        proof {
            assert(tokens@[j as int]@ == toks[j as int]);
            assert(args@.map_values(|x: String| x@) =~= prev.push(toks[j as int]));
            assert(prev.push(toks[j as int]) =~= toks.subrange(1, j + 1));
        }
        j = j + 1;
    }
    proof {
        assert(toks.subrange(1, m as int) =~= toks.skip(1));
    }
    Ok(ParsedCommand { program, args })
}

/// The decimal digit characters of `n`, most significant first.
pub open spec fn spec_dec(n: nat) -> Seq<char>
    decreases n,
{
    if n < 10 {
        seq![spec_digit(n)]
    } else {
        spec_dec(n / 10).push(spec_digit(n % 10))
    }
}

/// The character of one decimal digit.
pub open spec fn spec_digit(d: nat) -> char {
    if d == 0 {
        '0'
    } else if d == 1 {
        '1'
    } else if d == 2 {
        '2'
    } else if d == 3 {
        '3'
    } else if d == 4 {
        '4'
    } else if d == 5 {
        '5'
    } else if d == 6 {
        '6'
    } else if d == 7 {
        '7'
    } else if d == 8 {
        '8'
    } else {
        '9'
    }
}

fn digit_char(d: usize) -> (r: char)
    requires
        d < 10,
    ensures
        r == spec_digit(d as nat),
{
    if d == 0 {
        '0'
    } else if d == 1 {
        '1'
    } else if d == 2 {
        '2'
    } else if d == 3 {
        '3'
    } else if d == 4 {
        '4'
    } else if d == 5 {
        '5'
    } else if d == 6 {
        '6'
    } else if d == 7 {
        '7'
    } else if d == 8 {
        '8'
    } else {
        '9'
    }
}

fn usize_to_chars(n: usize) -> (r: Vec<char>)
    ensures
        r@ == spec_dec(n as nat),
    decreases n,
{
    if n < 10 {
        let mut r: Vec<char> = Vec::new();
        r.push(digit_char(n));
        proof {
            assert(r@ =~= seq![spec_digit(n as nat)]);
        }
        r
    } else {
        let mut r = usize_to_chars(n / 10);
        r.push(digit_char(n % 10));
        r
    }
}

/// Renders an index in decimal.
pub fn usize_to_string(n: usize) -> (r: String)
    ensures
        r@ == spec_dec(n as nat),
{
    let chars = usize_to_chars(n);
    chars_to_string(&chars)
}

/// Holds a resolved command list, ready to print or run.
#[derive(Debug)]
pub struct TaskRunner {
    commands: Vec<String>,
}

impl TaskRunner {
    /// The held command strings.
    pub closed spec fn spec_commands(&self) -> Seq<Seq<char>> {
        self.commands@.map_values(|t: String| t@)
    }

    /// Wraps a resolved command list.
    pub fn new(commands: Vec<String>) -> (r: TaskRunner)
        ensures
            r.spec_commands() == commands@.map_values(|t: String| t@),
    {
        TaskRunner { commands }
    }

    /// The number of commands held.
    pub fn num_commands(&self) -> (r: usize)
        ensures
            r == self.spec_commands().len(),
    {
        self.commands.len()
    }

    /// The `i`-th command string.
    pub fn command_at(&self, i: usize) -> (r: &String)
        requires
            i < self.spec_commands().len(),
        ensures
            r@ == self.spec_commands()[i as int],
    {
        &self.commands[i]
    }

    /// The dry-run rendering: exactly one line per held command, in order,
    /// each beginning with its zero-based index in decimal, then `: `, then
    /// the command string.
    pub fn dry_run_lines(&self) -> (r: Vec<String>)
        ensures
            r@.len() == self.spec_commands().len(),
            forall|i: int|
                0 <= i < r@.len() ==> (#[trigger] r@[i])@ == spec_dec(i as nat) + ": "@
                    + self.spec_commands()[i],
    {
        let n = self.commands.len();
        let mut r: Vec<String> = Vec::new();
        let mut i: usize = 0;
        while i < n
            invariant
                i <= n,
                n == self.spec_commands().len(),
                n == self.commands@.len(),
                r@.len() == i,
                forall|j: int|
                    0 <= j < i ==> (#[trigger] r@[j])@ == spec_dec(j as nat) + ": "@
                        + self.spec_commands()[j],
            decreases n - i,
        {
            let mut line = usize_to_string(i);
            line.append(": ");
            line.append(self.commands[i].as_str());
            proof {
                assert(self.commands@[i as int]@ == self.spec_commands()[i as int]);
            }
            r.push(line);
            i = i + 1;
        }
        r
    }

    /// Parses every held command string in order into a program name and
    /// argument tokens; the first unparsable command string (one without any
    /// token) fails the whole list.
    pub fn parse_strings_into_commands(&self) -> (r: Result<Vec<ParsedCommand>, ExecutionError>)
        ensures
            (r is Ok) == (forall|i: int|
                0 <= i < self.spec_commands().len() ==> ws_tokens(
                    #[trigger] self.spec_commands()[i],
                ).len() > 0),
            (r matches Ok(v) ==> {
                &&& v@.len() == self.spec_commands().len()
                &&& forall|i: int|
                    0 <= i < v@.len() ==> {
                        &&& (#[trigger] v@[i]).program@ == ws_tokens(self.spec_commands()[i])[0]
                        &&& v@[i].args@.map_values(|t: String| t@) == ws_tokens(
                            self.spec_commands()[i],
                        ).skip(1)
                    }
            }),
            (r matches Err(e) ==> exists|i: int|
                0 <= i < self.spec_commands().len() && ws_tokens(
                    #[trigger] self.spec_commands()[i],
                ).len() == 0 && {
                    &&& e matches ExecutionError::CommandNotFound(m)
                    &&& m.code@ == "MISSING_CMD"@
                    &&& m.messages.deep_view() == seq![
                        "command could not be parsed from cmd string: "@
                            + self.spec_commands()[i],
                    ]
                }),
    {
        let n = self.commands.len();
        let mut parsed: Vec<ParsedCommand> = Vec::new();
        let mut i: usize = 0;
        while i < n
            invariant
                i <= n,
                n == self.commands@.len(),
                n == self.spec_commands().len(),
                parsed@.len() == i,
                forall|j: int|
                    0 <= j < i ==> ws_tokens(#[trigger] self.spec_commands()[j]).len() > 0,
                forall|j: int|
                    0 <= j < i ==> {
                        &&& (#[trigger] parsed@[j]).program@ == ws_tokens(
                            self.spec_commands()[j],
                        )[0]
                        &&& parsed@[j].args@.map_values(|t: String| t@) == ws_tokens(
                            self.spec_commands()[j],
                        ).skip(1)
                    },
            decreases n - i,
        {
            proof {
                assert(self.commands@[i as int]@ == self.spec_commands()[i as int]);
            }
            match parse_command_from_string(self.commands[i].clone()) {
                Ok(pc) => {
                    parsed.push(pc);
                },
                Err(e) => {
                    return Err(e);
                },
            }
            i = i + 1;
        }
        Ok(parsed)
    }
}

/// Resolves one requested task into a runner holding its flat command list:
/// the task is looked up, its variable table bound, and its command entries
/// expanded in order.
pub fn create_task_runner(
    file: &Taskfile,
    task_name: &String,
    context_name: Option<String>,
    supplied: &VarMap,
) -> (r: Result<TaskRunner, UserFacingError>)
    requires
        file.wf(),
        supplied.wf(),
    ensures
        !file.spec_has_task(task_name@) ==> {
            &&& r matches Err(e)
            &&& e matches UserFacingError::TaskDoesNotExist(m)
            &&& m.code@ == "TASK_ERROR"@
            &&& m.messages.deep_view() == seq!["no task named `"@ + task_name@ + "`"@]
        },
        file.spec_has_task(task_name@) ==> {
            let task = file.spec_task(task_name@);
            let ctx = match context_name {
                Some(n) => file.spec_context_vars(n@),
                None => Map::<Seq<char>, Seq<char>>::empty(),
            };
            let table = crate::binder::spec_bound_table(task.spec_args(), ctx, supplied@);
            let res = crate::expand::spec_expand_cmds(
                *file,
                task.commands@,
                table,
                ctx,
                seq![task_name@],
            );
            &&& (r is Ok) == (res is Ok)
            &&& (r matches Ok(runner) ==> Ok::<Seq<Seq<char>>, ExpandErr>(runner.spec_commands())
                == res)
            &&& (r matches Err(e) ==> res matches Err(k) && spec_err_matches(e, k))
        },
{
    let commands = match create_command_strings(file, task_name, context_name, supplied) {
        Ok(v) => v,
        Err(e) => {
            return Err(e);
        },
    };
    Ok(TaskRunner::new(commands))
}

} // verus!
