//! A safety boundary between a host program and an embedded, stack-based
//! script engine.
//!
//! Script values cross the boundary as [`Value`]s, faults as [`Error`]s, and
//! every operation of a [`Context`] leaves the engine's value stack at the
//! depth it found it. The engine itself is reached through the [`Stack`]
//! capability, whose contracts are stated over [`Native`], a mathematical
//! model of the values an engine holds. [`Heap`] is a stack in host memory
//! that meets those contracts without an interpreter behind it.

pub mod error;
pub mod native;
pub mod stack;
pub mod value;
pub mod context;
pub mod heap;

pub use crate::context::Context;
pub use crate::error::{Error, JsErrorKind};
pub use crate::heap::{Field, Heap, Node, Script};
pub use crate::native::Native;
pub use crate::stack::Stack;
pub use crate::value::Value;
