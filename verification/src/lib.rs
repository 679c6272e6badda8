//! Core library of a school-document manager: documents ("branches") live as
//! LaTeX or Markdown sources in a fixed directory layout, carry a comment-bounded
//! key/value preamble, and are compiled to PDFs through a templated build
//! pipeline.  Path resolution, preamble parsing, template-context assembly,
//! escaping and the build-stage sequencing are verified; calls into the
//! template engine and the JSON value store it renders from are trusted and
//! kept behind small wrappers.

pub mod branch;
pub mod check;
pub mod commit;
pub mod conf;
pub mod dates;
pub mod error;
pub mod inject;
pub mod locations;
pub mod pipeline;
pub mod preamble;
pub mod render;
pub mod template;
pub mod text;

pub use error::KiwiError;
