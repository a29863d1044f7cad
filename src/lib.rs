//! Tracking of actions (units of work) grouped into projects and stored as
//! markdown documents with a metadata block and titled sections.

pub mod action;
pub mod document;
pub mod error;
pub mod order;
pub mod parser;
pub mod paths;
pub mod project;
pub mod stamp;
pub mod status;
pub mod template;
pub mod text;
pub mod utils;
pub mod workspace;

pub use action::Action;
pub use project::Project;
pub use status::Status;
pub use workspace::Workspace;
