//! Response-resolution engine of a chat bot: user-defined "factoids" are
//! looked up by label, alias indirection is chased up to a fixed depth, and
//! replies are addressed to a named third party on request. Bulk conversion
//! between stored factoids and line-oriented records, and import of system
//! error-code tables, share the same record model.

pub mod convert;
pub mod model;
pub mod resolve;
pub mod store;
pub mod text;
