//! Error types shared by the resolution pipeline and their text renderings.
//!
//! Each error carries an [`ErrWithMessage`]: a short machine-readable code
//! plus a stack of human-readable messages, most recent last. Rendering
//! methods return the text a caller would print; their contracts pin the
//! produced characters exactly.
use vstd::prelude::*;
use vstd::string::*;

verus! {

/// An error code plus a stack of messages, most recent last.
#[derive(Debug)]
pub struct ErrWithMessage {
    pub code: String,
    pub messages: Vec<String>,
}

/// The lines rendered below the first message: each earlier message appears
/// on its own `>`-indented line, later messages first.
pub open spec fn spec_message_stack(messages: Seq<Seq<char>>) -> Seq<char>
    decreases messages.len(),
{
    if messages.len() == 0 {
        Seq::empty()
    } else {
        "\n>    "@ + messages.last() + spec_message_stack(messages.drop_last())
    }
}

/// The full rendering of an [`ErrWithMessage`]: the code in red, a colon,
/// then the messages from most recent to oldest.
pub open spec fn spec_err_display(code: Seq<char>, messages: Seq<Seq<char>>) -> Seq<char>
    recommends
        messages.len() > 0,
{
    "\u{1b}[31m"@ + code + "\u{1b}[0m: "@ + messages.last() + spec_message_stack(
        messages.drop_last(),
    )
}

impl ErrWithMessage {
    /// Records a higher-level message on top of the existing stack.
    pub fn add_to_stack(&mut self, message: String)
        ensures
            final(self).code == old(self).code,
            final(self).messages@ == old(self).messages@.push(message),
    {
        self.messages.push(message);
    }

    /// Renders the error as it would be printed.
    pub fn display_string(&self) -> (r: String)
        requires
            self.messages@.len() > 0,
        ensures
            r@ == spec_err_display(self.code@, self.messages.deep_view()),
    {
        let ghost msgs = self.messages.deep_view();
        let mut r = String::new();
        r.append("\u{1b}[31m");
        r.append(self.code.as_str());
        r.append("\u{1b}[0m: ");
        let n = self.messages.len();
        r.append(self.messages[n - 1].as_str());
        let mut j = n - 1;
        proof {
            assert(msgs.drop_last() =~= msgs.take(j as int));
        }
        while j > 0
            invariant
                j < n,
                n == self.messages@.len(),
                msgs == self.messages.deep_view(),
                n == msgs.len(),
                r@ + spec_message_stack(msgs.take(j as int)) == spec_err_display(
                    self.code@,
                    msgs,
                ),
            decreases j,
        {
            r.append("\n>    ");
            r.append(self.messages[j - 1].as_str());
            j = j - 1;
            proof {
                assert(msgs.take(j + 1).drop_last() =~= msgs.take(j as int));
                assert(msgs.take(j + 1).last() == msgs[j as int]);
            }
        }
        proof {
            assert(msgs.take(0) =~= Seq::<Seq<char>>::empty());
            assert(r@ + spec_message_stack(msgs.take(0)) =~= r@);
        }
        r
    }
}

/// The error produced when substitution finds no value for an argument.
#[derive(Debug)]
pub struct ArgError {
    pub message: String,
}

/// The rendering of an [`ArgError`].
pub open spec fn spec_arg_error_display(message: Seq<char>) -> Seq<char> {
    "Missing Value: "@ + message
}

impl ArgError {
    /// Renders the error as it would be printed.
    pub fn display_string(&self) -> (r: String)
        ensures
            r@ == spec_arg_error_display(self.message@),
    {
        let mut r = String::new();
        r.append("Missing Value: ");
        r.append(self.message.as_str());
        r
    }
}

/// Errors raised while loading a task file.
#[derive(Debug)]
pub enum TaskfileError {
    FileNotFound(ErrWithMessage),
    FileParseError(ErrWithMessage),
}

impl TaskfileError {
    /// The message stack carried inside, whatever the variant.
    pub open spec fn spec_inner(self) -> ErrWithMessage {
        match self {
            TaskfileError::FileNotFound(e) => e,
            TaskfileError::FileParseError(e) => e,
        }
    }

    /// The rendering of the error.
    pub open spec fn spec_display(self) -> Seq<char> {
        match self {
            TaskfileError::FileNotFound(e) => "Taskfile does not exist:\n    "@ + spec_err_display(
                e.code@,
                e.messages.deep_view(),
            ),
            TaskfileError::FileParseError(e) => "Taskfile Parsing Error:\n    "@
                + spec_err_display(e.code@, e.messages.deep_view()),
        }
    }

    /// Renders the error as it would be printed.
    pub fn display_string(&self) -> (r: String)
        requires
            self.spec_inner().messages@.len() > 0,
        ensures
            r@ == self.spec_display(),
    {
        let mut r = String::new();
        match self {
            TaskfileError::FileNotFound(e) => {
                r.append("Taskfile does not exist:\n    ");
                let inner = e.display_string();
                r.append(inner.as_str());
            },
            TaskfileError::FileParseError(e) => {
                r.append("Taskfile Parsing Error:\n    ");
                let inner = e.display_string();
                r.append(inner.as_str());
            },
        }
        r
    }
}

/// Errors raised while parsing or running resolved commands.
#[derive(Debug)]
pub enum ExecutionError {
    CommandFailed(ErrWithMessage),
    CommandNotFound(ErrWithMessage),
}

impl ExecutionError {
    /// The message stack carried inside, whatever the variant.
    pub open spec fn spec_inner(self) -> ErrWithMessage {
        match self {
            ExecutionError::CommandFailed(e) => e,
            ExecutionError::CommandNotFound(e) => e,
        }
    }

    /// The rendering of the error.
    pub open spec fn spec_display(self) -> Seq<char> {
        match self {
            ExecutionError::CommandFailed(e) => "Command failed to execute:\n    "@
                + spec_err_display(e.code@, e.messages.deep_view()),
            ExecutionError::CommandNotFound(e) => "Command not found:\n    "@ + spec_err_display(
                e.code@,
                e.messages.deep_view(),
            ),
        }
    }

    /// Renders the error as it would be printed.
    pub fn display_string(&self) -> (r: String)
        requires
            self.spec_inner().messages@.len() > 0,
        ensures
            r@ == self.spec_display(),
    {
        let mut r = String::new();
        match self {
            ExecutionError::CommandFailed(e) => {
                r.append("Command failed to execute:\n    ");
                let inner = e.display_string();
                r.append(inner.as_str());
            },
            ExecutionError::CommandNotFound(e) => {
                r.append("Command not found:\n    ");
                let inner = e.display_string();
                r.append(inner.as_str());
            },
        }
        r
    }
}

/// The errors surfaced to the user of the runner.
#[derive(Debug)]
pub enum UserFacingError {
    TaskfileDoesNotExist(ErrWithMessage),
    TaskfileParseError(ErrWithMessage),
    TaskExecutionError(ErrWithMessage),
    MissingArgError(ErrWithMessage),
    TaskDoesNotExist(ErrWithMessage),
    UnimplementedCommand(ErrWithMessage),
    CycleDetected(ErrWithMessage),
}

/// True when the two errors are the same variant of [`UserFacingError`].
pub open spec fn same_user_variant(a: UserFacingError, b: UserFacingError) -> bool {
    match (a, b) {
        (UserFacingError::TaskfileDoesNotExist(_), UserFacingError::TaskfileDoesNotExist(_)) => true,
        (UserFacingError::TaskfileParseError(_), UserFacingError::TaskfileParseError(_)) => true,
        (UserFacingError::TaskExecutionError(_), UserFacingError::TaskExecutionError(_)) => true,
        (UserFacingError::MissingArgError(_), UserFacingError::MissingArgError(_)) => true,
        (UserFacingError::TaskDoesNotExist(_), UserFacingError::TaskDoesNotExist(_)) => true,
        (UserFacingError::UnimplementedCommand(_), UserFacingError::UnimplementedCommand(_)) => true,
        (UserFacingError::CycleDetected(_), UserFacingError::CycleDetected(_)) => true,
        _ => false,
    }
}

impl UserFacingError {
    /// The message stack carried inside, whatever the variant.
    pub open spec fn spec_inner(self) -> ErrWithMessage {
        match self {
            UserFacingError::TaskfileDoesNotExist(e) => e,
            UserFacingError::TaskfileParseError(e) => e,
            UserFacingError::TaskExecutionError(e) => e,
            UserFacingError::MissingArgError(e) => e,
            UserFacingError::TaskDoesNotExist(e) => e,
            UserFacingError::UnimplementedCommand(e) => e,
            UserFacingError::CycleDetected(e) => e,
        }
    }

    /// The rendering of the error: the inner message stack, with no prefix.
    pub open spec fn spec_display(self) -> Seq<char> {
        spec_err_display(self.spec_inner().code@, self.spec_inner().messages.deep_view())
    }

    /// Renders the error as it would be printed.
    pub fn display_string(&self) -> (r: String)
        requires
            self.spec_inner().messages@.len() > 0,
        ensures
            r@ == self.spec_display(),
    {
        match self {
            UserFacingError::TaskfileDoesNotExist(e) => e.display_string(),
            UserFacingError::TaskfileParseError(e) => e.display_string(),
            UserFacingError::TaskExecutionError(e) => e.display_string(),
            UserFacingError::MissingArgError(e) => e.display_string(),
            UserFacingError::TaskDoesNotExist(e) => e.display_string(),
            UserFacingError::UnimplementedCommand(e) => e.display_string(),
            UserFacingError::CycleDetected(e) => e.display_string(),
        }
    }

    /// Records a higher-level message on the inner stack, keeping the variant.
    pub fn add_to_error_stack(&mut self, message: String)
        ensures
            same_user_variant(*old(self), *final(self)),
            final(self).spec_inner().code == old(self).spec_inner().code,
            final(self).spec_inner().messages@ == old(self).spec_inner().messages@.push(message),
    {
        match self {
            UserFacingError::TaskfileDoesNotExist(e) => e.add_to_stack(message),
            UserFacingError::TaskfileParseError(e) => e.add_to_stack(message),
            UserFacingError::TaskExecutionError(e) => e.add_to_stack(message),
            UserFacingError::MissingArgError(e) => e.add_to_stack(message),
            UserFacingError::TaskDoesNotExist(e) => e.add_to_stack(message),
            UserFacingError::UnimplementedCommand(e) => e.add_to_stack(message),
            UserFacingError::CycleDetected(e) => e.add_to_stack(message),
        }
    }
}

impl From<TaskfileError> for UserFacingError {
    /// A file-not-found error becomes [`UserFacingError::TaskfileDoesNotExist`]
    /// and a parse error becomes [`UserFacingError::TaskfileParseError`]; each
    /// gains one more message naming the failure.
    fn from(error: TaskfileError) -> (r: UserFacingError)
        ensures
            error matches TaskfileError::FileNotFound(e) ==> {
                &&& r matches UserFacingError::TaskfileDoesNotExist(m)
                &&& m.code == e.code
                &&& m.messages.deep_view() == e.messages.deep_view().push(
                    "Taskfile could not be found"@,
                )
            },
            error matches TaskfileError::FileParseError(e) ==> {
                &&& r matches UserFacingError::TaskfileParseError(m)
                &&& m.code == e.code
                &&& m.messages.deep_view() == e.messages.deep_view().push(
                    "Taskfile encountered parsing issue"@,
                )
            },
    {
        match error {
            TaskfileError::FileNotFound(mut e) => {
                let ghost before = e.messages.deep_view();
                e.add_to_stack(String::from_str("Taskfile could not be found"));
                proof {
                    assert(e.messages.deep_view() =~= before.push(
                        "Taskfile could not be found"@,
                    ));
                }
                UserFacingError::TaskfileDoesNotExist(e)
            },
            TaskfileError::FileParseError(mut e) => {
                let ghost before = e.messages.deep_view();
                e.add_to_stack(String::from_str("Taskfile encountered parsing issue"));
                proof {
                    assert(e.messages.deep_view() =~= before.push(
                        "Taskfile encountered parsing issue"@,
                    ));
                }
                UserFacingError::TaskfileParseError(e)
            },
        }
    }
}

impl vstd::std_specs::convert::FromSpecImpl<TaskfileError> for UserFacingError {
    open spec fn obeys_from_spec() -> bool {
        false
    }

    open spec fn from_spec(v: TaskfileError) -> UserFacingError {
        arbitrary()
    }
}

impl From<ExecutionError> for UserFacingError {
    /// Either execution error becomes [`UserFacingError::TaskExecutionError`],
    /// gaining one more message naming the failure.
    fn from(error: ExecutionError) -> (r: UserFacingError)
        ensures
            r matches UserFacingError::TaskExecutionError(m),
            ({
                let e = error.spec_inner();
                let m = r.spec_inner();
                &&& m.code == e.code
                &&& m.messages.deep_view() == e.messages.deep_view().push(
                    "Command failed to execute"@,
                )
            }),
    {
        let mut e = match error {
            ExecutionError::CommandFailed(e) => e,
            ExecutionError::CommandNotFound(e) => e,
        };
        let ghost before = e.messages.deep_view();
        e.add_to_stack(String::from_str("Command failed to execute"));
        proof {
            assert(e.messages.deep_view() =~= before.push("Command failed to execute"@));
        }
        UserFacingError::TaskExecutionError(e)
    }
}

impl vstd::std_specs::convert::FromSpecImpl<ExecutionError> for UserFacingError {
    open spec fn obeys_from_spec() -> bool {
        false
    }

    open spec fn from_spec(v: ExecutionError) -> UserFacingError {
        arbitrary()
    }
}

} // verus!
