//! A "run dialog" style command launcher core, verified with Verus.
//!
//! The crate holds the decision logic of the launcher: classifying user
//! input as an explicit path or a bare command, searching directories and
//! candidate extensions in order, parsing and comparing semantic versions,
//! and reducing a release description to an update summary.  All I/O
//! (filesystem probing aside, which sits behind one trusted call) is left
//! to the surrounding application.

pub mod assets;
pub mod resolver;
pub mod text;
pub mod update;
pub mod version;
