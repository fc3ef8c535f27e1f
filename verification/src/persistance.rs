//! The two stores: what each promises, and how the outcome of a statement
//! that the engine ran becomes the outcome of the operation.

pub mod answers_dao;
pub mod questions_dao;
