//! A declarative task runner core: named tasks (ordered shell command
//! templates with typed, defaulted arguments) are resolved, together with
//! caller-supplied argument values and an optional named context of default
//! overrides, into a flat ordered list of concrete shell command strings.
//!
//! The crate covers the resolution engine: variable binding with layered
//! precedence ([`binder`]), `${name}` template substitution ([`subst`]),
//! quote-aware tokenization of task invocation strings ([`strings`]),
//! recursive task-to-task expansion ([`expand`]), and the parsing and
//! dry-run rendering of the resolved commands ([`runner`]). Loading a
//! configuration document and spawning the child processes are left to the
//! surrounding application, which hands the engine plain values.
pub mod binder;
pub mod errors;
pub mod expand;
pub mod runner;
pub mod strings;
pub mod subst;
pub mod taskfile;
pub mod vars;
