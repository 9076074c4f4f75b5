//! What can go wrong while a container is created, and how it is told.
//!
//! A caller learns of every failure in the same way: the call did not
//! complete, and a message says why. The kind and the stage are there for
//! whoever has to clean up: from `Spawned` on, a process was started that
//! nobody supervises.

use crate::session::Stage;
use crate::wire::{error_failed, failed_error};
use vstd::prelude::*;

verus! {

/// The family a failure belongs to.
#[derive(Debug, Clone, Copy, PartialEq, Eq, Structural)]
pub enum FailureKind {
    /// A terminal, a pipe or a socket could not be had.
    ResourceAllocation,
    /// The container runtime could not be started.
    Spawn,
    /// The request or the pidfile does not hold what it should.
    Protocol,
    /// No peer connected to the console.
    Synchronization,
    /// The child could not be registered.
    Registration,
}

/// Why a child was not registered.
#[derive(Debug, Clone, Copy, PartialEq, Eq, Structural)]
pub enum RegistrationError {
    /// The child table already holds a container of this identifier.
    DuplicateId,
    /// The reaper already has a watch filed under this process identifier.
    AlreadyWatched,
}

impl RegistrationError {
    pub open spec fn spec_message(self) -> Seq<char> {
        match self {
            RegistrationError::DuplicateId => "container id is already registered"@,
            RegistrationError::AlreadyWatched => "process id is already watched"@,
        }
    }

    /// The words for the caller.
    pub fn message(&self) -> (text: &'static str)
        ensures
            text@ == self.spec_message(),
    {
        match self {
            RegistrationError::DuplicateId => "container id is already registered",
            RegistrationError::AlreadyWatched => "process id is already watched",
        }
    }
}

/// What a `Failure` stands for.
pub struct FailureView {
    pub kind: FailureKind,
    pub stage: Stage,
    pub message: Seq<char>,
}

/// The one outcome of a call that did not complete.
#[derive(Debug, Clone, PartialEq, Eq)]
pub struct Failure {
    pub kind: FailureKind,
    /// The stage that the call had reached when it failed.
    pub stage: Stage,
    /// The words for the caller.
    pub message: String,
}

impl View for Failure {
    type V = FailureView;

    open spec fn view(&self) -> FailureView {
        FailureView { kind: self.kind, stage: self.stage, message: self.message@ }
    }
}

impl Failure {
    /// The error that answers the call: a failed one that carries the message.
    pub fn into_error(self) -> (error: capnp::Error)
        ensures
            error == failed_error(self@.message),
    {
        error_failed(self.message)
    }
}

} // verus!
