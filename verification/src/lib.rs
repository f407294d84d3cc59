//! Transaction templates committed to by a template hash.
//!
//! A [`Template`] describes the shape of a future transaction: its outputs,
//! the guards that restrict it, its value bounds, and a 32-byte digest that
//! commits to the transaction body.  Templates are assembled by a [`Builder`],
//! which validates the pending outputs, materializes the transaction body and
//! computes the digest exactly once.

pub mod builder;
pub mod digest;
pub mod encoding;
pub mod error;
pub mod metadata;
pub mod output;
pub mod template;
pub mod transaction;

pub use builder::Builder;
pub use digest::compute_digest;
pub use error::TemplateError;
pub use metadata::{JsonNumber, JsonValue, TemplateMetadata};
pub use output::{Guard, Output};
pub use template::Template;
pub use transaction::{TxBody, TxOut};
