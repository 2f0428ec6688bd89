//! The core of a task runner.
//!
//! A configuration file declares recipes: named lists of shell commands,
//! with variables, a working directory and the names of the recipes that
//! have to run first. Files import other files from git repositories.
//!
//! The library compiles the language ([`lexer`], [`expr`], [`lang`],
//! [`compiler`]), merges a root file and its imports into one namespace
//! ([`resolve`]), orders the recipes that a target needs ([`closure`]) and
//! makes each of them ready to run ([`task`]). It also writes compiled files
//! back as text ([`serialize`], [`unparse`], [`render`]). It reads no file
//! and starts no process: the caller brings the texts and runs the commands.

pub mod closure;
pub mod compiler;
pub mod error;
pub mod expr;
pub mod lang;
pub mod lexer;
pub mod ordered;
pub mod recipe;
pub mod remote;
pub mod render;
pub mod resolve;
pub mod serialize;
pub mod shell;
pub mod task;
pub mod text;
pub mod token;
pub mod unparse;
pub mod util;
pub mod version;

pub use crate::compiler::Include;
pub use crate::compiler::IncludeVec;
pub use crate::compiler::Moldfile;
pub use crate::error::Error;
pub use crate::ordered::EnvSet;
pub use crate::ordered::SourceMap;
pub use crate::ordered::TargetSet;
pub use crate::ordered::VarMap;
pub use crate::recipe::Recipe;
pub use crate::recipe::RecipeMap;
pub use crate::remote::Remote;
pub use crate::resolve::Mold;
pub use crate::task::Task;
