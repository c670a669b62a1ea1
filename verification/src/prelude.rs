//! What a program that reads commands needs in scope.

pub use crate::parsing::split_string_unescape;
pub use crate::registry::{derive_repl_cmd_impl, CommandValue, Registry};
pub use crate::repl::{read_command, Step};
pub use crate::{Replman, ReplmanParse};
