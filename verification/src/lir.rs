//! The lowered program: a typed tree in which every expression carries its
//! type and every generic function stands once for each of its uses.

pub mod fold;
pub mod instances;
pub mod items;
pub mod known;
pub mod laws;
pub mod lower;
pub mod lower_expr;
pub mod lower_stmt;
pub mod mangle;
pub mod mono;
