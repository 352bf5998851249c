//! The evaluator as the library sees it: its settings, what it is asked, and
//! how a call of it can end.

use std::path::PathBuf;
use vstd::prelude::*;

verus! {

/// `std::path::PathBuf`, a path in the file system. Nothing is said of what
/// it holds: the library only stores one and hands it on.
#[verifier::external_type_specification]
#[verifier::external_body]
pub struct ExPathBuf(PathBuf);

/// What the evaluator is asked to do.
#[derive(Debug, Clone, Copy, PartialEq, Eq, Structural)]
pub enum Operation {
    Instantiate,
    Build,
    QueryPackagesJSON,
    QueryPackagesOutputs,
}

/// Settings of the evaluator: the platform it evaluates for, the store it
/// talks to, the bound on its running time in seconds, and the heap it
/// starts with.
#[derive(Debug, PartialEq)]
pub struct Nix {
    pub system: String,
    pub remote: String,
    pub build_timeout: u16,
    pub initial_heap_size: Option<String>,
}

/// The settings of an evaluator as mathematical values.
pub ghost struct NixView {
    pub system: Seq<char>,
    pub remote: Seq<char>,
    pub build_timeout: u16,
    pub initial_heap_size: Option<Seq<char>>,
}

impl View for Nix {
    type V = NixView;

    open spec fn view(&self) -> NixView {
        NixView {
            system: self.system@,
            remote: self.remote@,
            build_timeout: self.build_timeout,
            initial_heap_size: self.initial_heap_size.deep_view(),
        }
    }
}

impl Nix {
    /// Settings made of their four parts.
    pub fn new(
        system: String,
        remote: String,
        build_timeout: u16,
        initial_heap_size: Option<String>,
    ) -> (nix: Nix)
        ensures
            nix@ == (NixView {
                system: system@,
                remote: remote@,
                build_timeout,
                initial_heap_size: initial_heap_size.deep_view(),
            }),
    {
        Nix { system, remote, build_timeout, initial_heap_size }
    }

    /// The same settings, aimed at another platform.
    pub fn with_system(&self, system: String) -> (nix: Nix)
        ensures
            nix@ == (NixView { system: system@, ..self@ }),
    {
        let mut nix = self.clone();
        nix.system = system;
        nix
    }
}

impl Clone for Nix {
    fn clone(&self) -> (nix: Nix)
        ensures
            nix@ == self@,
    {
        let initial_heap_size = match &self.initial_heap_size {
            Some(size) => Some(size.clone()),
            None => None,
        };
        Nix {
            system: self.system.clone(),
            remote: self.remote.clone(),
            build_timeout: self.build_timeout,
            initial_heap_size,
        }
    }
}

/// One call of the evaluator: its settings, what it is to do, the checkout
/// it works in, its further arguments, and whether what it writes to its
/// standard output is kept.
#[derive(Debug, PartialEq)]
pub struct EvalRequest<'a> {
    pub nix: Nix,
    pub operation: Operation,
    pub checkout: &'a PathBuf,
    pub args: Vec<String>,
    pub keep_stdout: bool,
}

/// How one call of the evaluator ended.
#[derive(Debug, PartialEq)]
pub enum EvalOutcome {
    /// It ended with success; the bytes it wrote to its standard output.
    Success(Vec<u8>),
    /// It ended with a failure status.
    Failure,
    /// It was still running when its time was up.
    TimedOut,
}

} // verus!
