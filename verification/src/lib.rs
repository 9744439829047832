//! Toolchain core for SAILAR, a statically typed register-based bytecode:
//! the binary module codec, the code block builder that type-checks
//! instructions as they are emitted, and the loader that resolves the
//! cross-references of a module.

pub mod binary;
pub mod block;
pub mod diagnostics;
pub mod function;
pub mod identifier;
pub mod type_system;
pub mod instruction_set;
pub mod module;
pub mod validation;
pub mod assembly;
pub mod loader;
