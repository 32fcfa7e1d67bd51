//! What holds of the library as a whole, stated over what goes in and what
//! comes out.

pub mod arguments;
pub mod codec;
pub mod collections;
pub mod denotations;
pub mod fields;
pub mod format;
pub mod queries;
pub mod scopes;
pub mod terms;
pub mod texts;
pub mod tuples;
