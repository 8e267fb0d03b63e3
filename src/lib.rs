//! Agent and command configuration kept in two stores: Markdown files with
//! a frontmatter block, and the structured `opencode.json` document. The
//! library decides, field by field, which store an update goes to, and
//! frames, strips and resolves the texts involved; the caller reads and
//! writes the files.

pub mod error;
pub mod fields;
pub mod frontmatter;
pub mod laws;
pub mod lifecycle;
pub mod paths;
pub mod reconcile;
pub mod reference;
pub mod scope;
pub mod text;
