//! The front end of a compiler for a small statically typed systems language:
//! tokens, a recursive-descent parser, scope-based type resolution and a
//! clause-based trait obligation solver.
pub mod attrs;
pub mod span;
pub mod keyword;
pub mod text;
pub mod token;
pub mod diagnostics;
pub mod lexer;
pub mod ast;
pub mod token_stream;
pub mod precedence;
pub mod parser;
pub mod tyck;
pub mod traitsolver;
