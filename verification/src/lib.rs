//! Hiko: the syntax, type system and tooling logic of the Hiko language.
pub mod text;
pub mod syntax;
pub mod types;
pub mod builtins;
pub mod cli;
pub mod docgen;
pub mod compile;
pub mod harness;
pub mod agent;
pub mod tools;
pub mod inspect;
pub mod lockfile;
