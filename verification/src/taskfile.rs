//! The task model: an immutable description of one loaded configuration,
//! holding named tasks (ordered command entries plus declared arguments) and
//! named contexts (sets of default-value overrides).
use vstd::prelude::*;

use crate::vars::{string_eq, VarMap};

verus! {

/// The kind of one command entry of a task. Each variant carries the tag
/// text it was written with.
#[derive(Debug)]
pub enum CommandTypes {
    Task(String),
    Shell(String),
    Script(String),
}

impl CommandTypes {
    /// The tag text carried by the entry.
    pub open spec fn spec_display(self) -> Seq<char> {
        match self {
            CommandTypes::Task(v) => v@,
            CommandTypes::Shell(v) => v@,
            CommandTypes::Script(v) => v@,
        }
    }

    /// Renders the tag text, as it would be printed.
    pub fn display_string(&self) -> (r: String)
        ensures
            r@ == self.spec_display(),
    {
        match self {
            CommandTypes::Task(v) => v.clone(),
            CommandTypes::Shell(v) => v.clone(),
            CommandTypes::Script(v) => v.clone(),
        }
    }
}

/// One command entry of a task: its kind and its template text.
#[derive(Debug)]
pub struct TaskCmd {
    pub key: CommandTypes,
    pub value: String,
}

/// One declared argument of a task: a name, an optional default value, and
/// an informational type tag.
#[derive(Debug)]
pub struct CmdArg {
    pub name: String,
    pub default: Option<String>,
    pub arg_type: String,
}

impl CmdArg {
    /// Whether the argument must be supplied: it declares no default value.
    pub fn is_required(&self) -> (r: bool)
        ensures
            r == (self.default is None),
    {
        match &self.default {
            Some(_) => false,
            None => true,
        }
    }

    /// The argument's name.
    pub fn get_name(&self) -> (r: &String)
        ensures
            r == &self.name,
    {
        &self.name
    }

    /// The argument's default value, if it has one.
    pub fn get_default(&self) -> (r: Option<&String>)
        ensures
            match r {
                Some(v) => self.default == Some(*v),
                None => self.default is None,
            },
    {
        match &self.default {
            Some(v) => Some(v),
            None => None,
        }
    }
}

/// One named task: an ordered list of command entries plus its declared
/// arguments.
#[derive(Debug)]
pub struct TaskStanza {
    pub name: String,
    pub commands: Vec<TaskCmd>,
    pub command_args: Vec<CmdArg>,
    pub description: Option<String>,
}

impl TaskStanza {
    /// The declared arguments, in declaration order.
    pub open spec fn spec_args(&self) -> Seq<CmdArg> {
        self.command_args@
    }

    /// No two declared arguments share a name.
    pub open spec fn wf(&self) -> bool {
        forall|i: int, j: int|
            0 <= i < j < self.spec_args().len() ==> self.spec_args()[i].name@
                != self.spec_args()[j].name@
    }

    /// Builds a task from its parts.
    pub fn new(
        name: String,
        commands: Vec<TaskCmd>,
        command_args: Vec<CmdArg>,
        description: Option<String>,
    ) -> (r: TaskStanza)
        ensures
            r.name == name,
            r.commands == commands,
            r.spec_args() == command_args@,
            r.description == description,
    {
        TaskStanza { name, commands, command_args, description }
    }

    /// The declared arguments.
    pub fn get_command_args(&self) -> (r: &Vec<CmdArg>)
        ensures
            r@ == self.spec_args(),
    {
        &self.command_args
    }
}

/// A named set of default-value overrides.
#[derive(Debug)]
pub struct TaskContext {
    pub vars: VarMap,
}

/// A loaded configuration: named contexts and named tasks.
#[derive(Debug)]
pub struct Taskfile {
    pub contexts: Vec<(String, TaskContext)>,
    pub tasks: Vec<TaskStanza>,
}

impl Taskfile {
    /// Task names are unique, every task is well formed, context names are
    /// unique and every context's table is well formed.
    pub open spec fn wf(&self) -> bool {
        &&& forall|i: int, j: int|
            0 <= i < j < self.tasks@.len() ==> self.tasks@[i].name@ != self.tasks@[j].name@
        &&& forall|i: int| 0 <= i < self.tasks@.len() ==> (#[trigger] self.tasks@[i]).wf()
        &&& forall|i: int, j: int|
            0 <= i < j < self.contexts@.len() ==> self.contexts@[i].0@ != self.contexts@[j].0@
        &&& forall|i: int| 0 <= i < self.contexts@.len() ==> (#[trigger] self.contexts@[i]).1.vars.wf()
    }

    /// Whether a task of this name exists.
    pub open spec fn spec_has_task(&self, name: Seq<char>) -> bool {
        exists|i: int| 0 <= i < self.tasks@.len() && #[trigger] self.tasks@[i].name@ == name
    }

    /// The task of this name.
    pub open spec fn spec_task(&self, name: Seq<char>) -> TaskStanza
        recommends
            self.spec_has_task(name),
    {
        self.tasks@[choose|i: int| 0 <= i < self.tasks@.len() && #[trigger] self.tasks@[i].name@
            == name]
    }

    /// Looks a task up by name.
    pub fn get_task_by_name(&self, name: &String) -> (r: Option<&TaskStanza>)
        requires
            self.wf(),
        ensures
            match r {
                Some(t) => self.spec_has_task(name@) && *t == self.spec_task(name@),
                None => !self.spec_has_task(name@),
            },
    {
        let n = self.tasks.len();
        let mut i: usize = 0;
        while i < n
            invariant
                i <= n,
                n == self.tasks@.len(),
                self.wf(),
                forall|j: int| 0 <= j < i ==> self.tasks@[j].name@ != name@,
            decreases n - i,
        {
            if string_eq(&self.tasks[i].name, name) {
                proof {
                    let j = choose|j: int|
                        0 <= j < self.tasks@.len() && #[trigger] self.tasks@[j].name@ == name@;
                    assert(self.tasks@[i as int].name@ == name@);
                    assert(j == i);
                }
                return Some(&self.tasks[i]);
            }
            i = i + 1;
        }
        None
    }

    /// Whether a context of this name exists.
    pub open spec fn spec_has_context(&self, name: Seq<char>) -> bool {
        exists|i: int| 0 <= i < self.contexts@.len() && #[trigger] self.contexts@[i].0@ == name
    }

    /// The override table of the context of this name, or the empty table
    /// where no such context exists.
    pub open spec fn spec_context_vars(&self, name: Seq<char>) -> Map<Seq<char>, Seq<char>> {
        if self.spec_has_context(name) {
            self.contexts@[choose|i: int|
                0 <= i < self.contexts@.len() && #[trigger] self.contexts@[i].0@
                    == name].1.vars@
        } else {
            Map::empty()
        }
    }

    /// The override table selected by an optional context name: the named
    /// context's table where one was requested and exists, otherwise empty.
    pub fn get_context(&self, value: Option<String>) -> (r: VarMap)
        requires
            self.wf(),
        ensures
            r.wf(),
            match value {
                Some(name) => r@ == self.spec_context_vars(name@),
                None => r@ == Map::<Seq<char>, Seq<char>>::empty(),
            },
    {
        let name = match value {
            Some(name) => name,
            None => {
                return VarMap::new();
            },
        };
        let n = self.contexts.len();
        let mut i: usize = 0;
        while i < n
            invariant
                i <= n,
                n == self.contexts@.len(),
                self.wf(),
                value == Some(name),
                forall|j: int| 0 <= j < i ==> self.contexts@[j].0@ != name@,
            decreases n - i,
        {
            if string_eq(&self.contexts[i].0, &name) {
                proof {
                    let j = choose|j: int|
                        0 <= j < self.contexts@.len() && #[trigger] self.contexts@[j].0@ == name@;
                    assert(self.contexts@[i as int].0@ == name@);
                    assert(j == i);
                }
                return self.contexts[i].1.vars.clone();
            }
            i = i + 1;
        }
        VarMap::new()
    }
}

} // verus!
