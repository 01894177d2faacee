//! Spec-driven generation of freestanding foreign-function bindings for a
//! vendor's native software stack.
//!
//! Everything that decides what is generated lives here and is verified:
//! the binding registry, the text normaliser, the invocation flags handed to
//! the header-parsing backend, the artifact copy plan, the output layout and
//! the module index. Performing the resulting file operations and running the
//! backend is left to the caller.
pub mod text;
pub mod normalize;
pub mod registry;
pub mod index;
pub mod artifacts;
pub mod generate;
pub mod run;
