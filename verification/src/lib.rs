//! A YAML templating engine.
//!
//! A template is a YAML document whose scalars may hold `${{ ... }}`
//! expressions and whose map entries may use directive keys (`inline`,
//! `drop`, `if`, `for`) to reshape the surrounding containers. The engine
//! parses the template, evaluates it against a configuration document and
//! a set of named variables, and renders the resulting YAML documents.

pub mod ast;
pub mod emit;
pub mod errors;
pub mod events;
pub mod expr_parser;
pub mod interpreter;
pub mod laws;
pub mod lexer;
pub mod loader;
pub mod outside;
pub mod process_template;
pub mod semantics;
pub mod strutil;
pub mod template;
pub mod yaml;
