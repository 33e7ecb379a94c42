//! Interactive construction of values that conform to a JSON-style schema.
//!
//! The library interprets a schema tree against a log of user answers and
//! decides, at each point, which prompt to show next, how many terminal lines
//! to erase after an undo, and which value results once every prompt has been
//! answered.
pub mod builder;
pub mod collections;
pub mod compose;
pub mod error;
pub mod laws;
pub mod literal;
pub mod model;
pub mod path;
pub mod prompt;
pub mod resolve;
pub mod schema;
pub mod session;
pub mod shape;
pub mod text;
pub mod value;

pub use error::SchemaError;
pub use prompt::{Answer, Prompt, PromptKind};
pub use session::{run, Session, Step};
pub use text::get_title_str;
pub use value::Value;
