//! One analyser per tool. Each reads a whole log and returns the messages it
//! finds, in the order of the lines they start on.

pub mod alire;
pub mod angular;
pub mod biome;
pub mod cargo;
pub mod clang;
pub mod dune;
pub mod eslint;
pub mod gcc;
pub mod go;
pub mod gradle;
pub mod java;
pub mod karma_jasmine;
pub mod maven;
pub mod nix;
pub mod odin;
pub mod v;
pub mod zig;
