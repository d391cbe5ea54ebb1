//! Control core of an interactive process debugger.
//!
//! The crate verifies the three subsystems that drive a debugging session:
//! the process-control engine (attach, spawn bookkeeping, wait, resume,
//! teardown), the command language (grammar, recovering parser, and a
//! short-circuiting executor), and the decision logic of the event
//! multiplexer and interactive session loop.  The operating-system calls
//! themselves go through small trusted wrappers over the `nix` crate;
//! everything around them is proved.

pub mod ast;
pub mod engine;
pub mod events;
pub mod exec;
pub mod session;
pub mod parser;

pub use ast::Command;
pub use ast::Diagnostic;
pub use ast::ErrorKind;
pub use engine::Debugger;
pub use engine::DebuggerError;
pub use events::Event;
pub use events::Mux;
pub use events::SourceOutcome;
pub use events::TermInput;
pub use events::TermKey;
pub use exec::run_command;
pub use exec::run_command_ast;
pub use parser::parse_command;
pub use session::Session;
pub use session::SessionStep;
pub use session::session_continues_after;
