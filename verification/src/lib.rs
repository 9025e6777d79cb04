//! Notes of a personal knowledge-base vault: each note is a text file that
//! opens with a front-matter block and goes on with a body in which
//! `[[target]]` and `[[target|label]]` refer to other notes.
//!
//! - [`header`] takes a note's text apart, into the entries of its
//!   front-matter block and its body.
//! - [`links`] rewrites the wiki links of a body into inline links;
//!   [`link_laws`] holds what is proved of that rewriting.
//! - [`note`] makes a note from a name, a header and a body.
//! - [`vault`] reads the files of a vault, keeps the notes among them, and
//!   finds a note by its name.

pub mod header;
pub mod link_laws;
pub mod links;
pub mod note;
mod text;
pub mod vault;
