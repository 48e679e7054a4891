//! Incremental lexer core for the shell `case ... in ... esac` construct.
//!
//! The library classifies bytes arriving through a growable look-ahead window.
//! Each scanner state inspects the window and produces a [`decision::Verdict`]:
//! either a complete [`decision::Decision`] (how many bytes to emit, how many
//! to skip, an optional corrective insertion, and a stack action), or a request
//! to delegate the byte at a given offset to one of the surrounding tool's
//! collaborators (the quoting classifier or the command dispatcher), which
//! live outside this core.

pub mod bytes;
pub mod decision;
pub mod engine;
pub mod laws;
pub mod sitcase;

pub use crate::decision::flush;
pub use crate::decision::ColorClass;
pub use crate::decision::Decision;
pub use crate::decision::InsertLit;
pub use crate::decision::StackAction;
pub use crate::decision::StateTag;
pub use crate::decision::Verdict;
pub use crate::decision::CASE_END_TRIGGER;
pub use crate::sitcase::SitCase;
pub use crate::sitcase::SitCaseArm;
pub use crate::sitcase::SitIn;
