//! Forms: the fields a step asks for, the answers given, and the rules that
//! decide which fields count and which submissions are accepted.

pub mod answers;
pub mod blocks;
pub mod defaults;
pub mod form;
pub mod laws;
pub mod schema;
pub mod shape;
pub mod upload;
pub mod validate;
