//! A compiler for translation dictionaries.
//!
//! A dictionary declares the languages and regions that it supports and a
//! set of translation units: named keys whose value depends on the locale.
//!
//! ```text
//! enum Locale { De, En { Gb, Us } }
//!
//! unit greet(name: &str) {
//!     En(Gb) => "Hi {name}! Are you all right, mate?",
//!     En => "Hi {name}! How are you, buddy?",
//!     De => "Hallo {name}, wie geht's dir?",
//! }
//! ```
//!
//! The compiler turns such a description into code of the host language that
//! picks, for a locale given at run time, the right value for each key. It
//! works in three stages, each of which stops at its first error:
//!
//! 1. [`parse::parse`] reads a token stream into a syntax tree ([`ast`]).
//!    What it reads is laid down in [`grammar`].
//! 2. [`check::check`] refuses arms that can never match and units with a
//!    return type of their own that do not match every locale. What its
//!    verdicts mean is proved in [`semantics`].
//! 3. [`gen::gen`] lowers the tree to the tokens of the code. Which tokens
//!    those are is laid down in [`code`], and how the types of the modules
//!    are named, so that two different paths never give the same name, in
//!    [`naming`].
//!
//! The library reads and writes tokens of its own ([`token`]); a front end
//! converts from and to the tokens of the host. It asks the host's lexer two
//! things only ([`host`]).
//!
//! Every function comes with a contract over the models of its arguments,
//! and is proved to meet it.
pub mod ast;
pub mod check;
pub mod code;
pub mod cursor;
pub mod emit;
pub mod error;
pub mod format;
pub mod gen;
pub mod grammar;
pub mod host;
pub mod message;
pub mod model;
pub mod naming;
pub mod parse;
pub mod pipeline;
pub mod roundtrip;
pub mod runtime;
pub mod semantics;
pub mod sources;
pub mod template;
pub mod token;
pub mod usage;
