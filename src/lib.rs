//! Decides what a filesystem entry becomes in a synchronized project tree:
//! which init file configures a directory, which transformer owns a file, and
//! which entries yield no instance at all.

pub mod context;
pub mod dispatch;
pub mod init;
pub mod path;
pub mod selector;
pub mod transformer;

pub use context::InstanceContext;
pub use selector::get_transformer;
pub use transformer::{ScriptType, Transformer};
