//! A toolkit for the combinator calculus used as the wire language of a
//! remotely driven game: a decompiler that turns flat combinator definitions
//! into structured, readable programs, the signal modulation shared by every
//! client, and the game-state bookkeeping that the clients build on.

pub mod ast;
pub mod interp;
pub mod lambda;
pub mod lexer;
pub mod modtool;
pub mod names;
pub mod decompile;
pub mod dsl;
pub mod expr;
pub mod game;
pub mod parser;
pub mod simplified;
pub mod value;
pub mod wire;
