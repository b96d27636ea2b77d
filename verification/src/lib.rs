//! Path templates for an application's files: validated when they are
//! registered, resolved below one project root.
//!
//! A template such as `levels/{region}/dungeon_{id}.map` names a file relative
//! to the project root, with placeholders for the parts that vary. This crate
//! decides which templates are accepted: relative ones, without `.` or `..`,
//! whose components pass the rules for file names ([`structure`],
//! [`component`]). It fills placeholders with values ([`template`]), keeps
//! the templates of an application by kind ([`registry`]), and decides how
//! the base directory is found ([`base_path`]).
//!
//! Every function states what it returns over sequences of characters, and
//! the statements are proved. What follows from them for all inputs is proved
//! too, in [`structure_laws`] and [`template_laws`] and beside the functions
//! of the other modules: an accepted path never leads out of the directory it
//! is set below, every placeholder of a name is filled, the order of the
//! fields is free, the base path is a directory and never the root.
//!
//! What is taken on trust is named where it stands: the Unicode normalization
//! of the `unicode-normalization` crate, and the effect of `String::push`.

pub mod base_path;
pub mod component;
pub mod error;
pub mod registry;
pub mod structure;
pub mod structure_laws;
pub mod template;
pub mod template_laws;
pub mod text;

pub use base_path::{BasePathEvent, BasePathState};
pub use component::{normalize_component, validate_component};
pub use error::{PathRegistrationError, PathValidationError};
pub use registry::{PathRegistry, PathRegistryPlugin};
pub use structure::{validate_filled_path, validate_structural_path};
pub use template::{placeholders, resolve_template, Field, FieldValue};
