//! Scoped resources: a resource is entered, used, and exited exactly once,
//! and many resources can be gathered on one stack that exits them in the
//! reverse of the order in which they were registered.
//!
//! - [`Context`] is what a resource offers, and [`with`] runs a block inside
//!   one resource.
//! - [`ExitStack`] gathers resources and unwinds them; [`laws`] holds what
//!   is proved of every stack.
//! - [`ExitCallback`], [`util::ContextDrop`], [`droputil::DropContext`] and
//!   [`IterContext`] build resources out of closures, values, other resources
//!   and sequences; [`util::SwitchDir`] decides what a switch of the working
//!   directory has to do.

pub mod callback;
pub mod context;
pub mod droputil;
pub mod error;
pub mod laws;
pub mod sequence;
pub mod stack;
pub mod util;

pub use callback::ExitCallback;
pub use context::{with, Context};
pub use error::{ContextError, ContextErrorType, ContextResult};
pub use sequence::IterContext;
pub use stack::{ExitStack, Handle};
