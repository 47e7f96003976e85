//! The error taxonomy shared by every fallible operation of the crate.

use vstd::prelude::*;

verus! {

/// An error surfaced by a session, a registry, or a backend call.
#[derive(Debug, Clone, PartialEq, Eq)]
pub enum YumaError {
    /// A subprocess, prompt, or file resource could not be driven to
    /// completion; the detail records the cause.
    Io { detail: String },
    /// A generic package name has no mapping for the chosen backend.
    InvalidPackage { name: String },
    /// Two declarations for the same registry entry named different
    /// explicit backends.
    Conflict { detail: String },
    /// An unclassified external failure.
    Unknown,
}

impl YumaError {
    /// A short human-readable description of the error.
    pub fn message(&self) -> (r: String)
        ensures
            self matches YumaError::Io { detail } ==> r@ == detail@,
            self matches YumaError::InvalidPackage { name } ==> r@ == name@,
            self matches YumaError::Conflict { detail } ==> r@ == detail@,
            self matches YumaError::Unknown ==> r@ == Seq::<char>::empty(),
    {
        match self {
            YumaError::Io { detail } => detail.clone(),
            YumaError::InvalidPackage { name } => name.clone(),
            YumaError::Conflict { detail } => detail.clone(),
            YumaError::Unknown => String::new(),
        }
    }
}

} // verus!
