//! Finds out whether a change to a package collection changes the stdenv,
//! the toolchain that nearly every package is built with, on any of the
//! supported platforms.
//!
//! The stdenv of each platform is identified twice, on the target branch and
//! after the change has been merged into it, by the output path that the
//! evaluator gives for it. A platform whose two identifiers do not agree has
//! changed, and that is reported as tags to add to the change and tags to
//! delete from it.
//!
//! The library runs no evaluator itself. It says what to ask
//! ([`stdenvs::Stdenvs::request`]) and takes what came back
//! ([`nix::EvalOutcome`]).

pub mod eval;
pub mod nix;
pub mod probe;
pub mod stdenvs;
pub mod tagger;
