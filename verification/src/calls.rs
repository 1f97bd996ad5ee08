//! What each call on a matcher does, told by the calls on its parser that are behind it.
//!
//! These statements go through none of the relations of the model. They tie the arguments and the
//! result of a call on a matcher to the arguments and the results of the calls on the parser, for
//! every argument and every parser. What a guarded operation lets through, a success or a failure
//! of the parser, went through [`crate::matcher::settle`] first, which looks at the request once
//! the parser is done.
pub mod feeding;
pub mod masks;
pub mod operations;
pub mod queries;
pub mod trying;
