//! Run several shell commands side by side, label every line they print, and
//! stop them all together on an interrupt.
//!
//! The library holds the decisions: how command names are reconciled with the
//! commands, how labels are built and aligned, how a child's output bytes are
//! cut into labelled lines, what a child's lifecycle does with a stop request,
//! and how a stop request is broadcast to every child.

pub mod text;

pub mod child;
pub mod label;
pub mod lines;
pub mod names;
pub mod plan;

pub use child::{
    broadcast_stop, shell_invocation, terminate_invocation, ChildEvent, ChildPhase, RelayAction,
    StopRefused,
};
pub use label::{make_prefix, make_prefixes, name_width};
pub use lines::LineBuffer;
pub use names::{default_names, fixup_names, resolve_names, split_commas_exec, Args, NameCountError};
pub use plan::{plan, Launch};
pub use text::decimal_string;
