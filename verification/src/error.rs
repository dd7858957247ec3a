//! What can end a run early.

use crate::text::{decimal, decimal_text, prefixed, wrap};
use vstd::prelude::*;

verus! {

/// Which part of making a file failed.
#[derive(Clone, Copy, Debug, PartialEq, Eq)]
pub enum FileStep {
    /// The file could not be created.
    Create,
    /// The file was created, but its content could not be written.
    Write,
}

/// Which directory could not be created.
#[derive(Clone, Copy, Debug, PartialEq, Eq)]
pub enum DirRole {
    /// The working directory that holds everything a run creates.
    WorkRoot,
    /// A directory of the chain.
    Level,
}

/// Why a run cannot start or go on.  Every one of them is final.
#[derive(Debug, PartialEq, Eq)]
pub enum RunError {
    /// The depth is zero, or the budget gives no directory a file.
    InvalidTarget { total_inodes: u64, depth: u64 },
    /// The root path does not exist.
    InvalidRootPath { path: String },
    /// A directory could not be created.
    DirectoryCreation { path: String, role: DirRole },
    /// A file could not be created or written.
    InodeCreation { path: String, step: FileStep },
    /// No unused name could be found, or the pool of names ran dry.
    NamesExhausted,
    /// A reply came that does not answer the request that was open.
    UnexpectedReply,
}

/// A `RunError` with its paths as sequences of characters.
pub enum RunErrorView {
    InvalidTarget { total_inodes: nat, depth: nat },
    InvalidRootPath { path: Seq<char> },
    DirectoryCreation { path: Seq<char>, role: DirRole },
    InodeCreation { path: Seq<char>, step: FileStep },
    NamesExhausted,
    UnexpectedReply,
}

impl View for RunError {
    type V = RunErrorView;

    open spec fn view(&self) -> RunErrorView {
        match self {
            RunError::InvalidTarget { total_inodes, depth } => RunErrorView::InvalidTarget {
                total_inodes: *total_inodes as nat,
                depth: *depth as nat,
            },
            RunError::InvalidRootPath { path } => RunErrorView::InvalidRootPath { path: path@ },
            RunError::DirectoryCreation { path, role } => RunErrorView::DirectoryCreation {
                path: path@,
                role: *role,
            },
            RunError::InodeCreation { path, step } => RunErrorView::InodeCreation {
                path: path@,
                step: *step,
            },
            RunError::NamesExhausted => RunErrorView::NamesExhausted,
            RunError::UnexpectedReply => RunErrorView::UnexpectedReply,
        }
    }
}

/// The message for an error.  Where the error is about a path, the message
/// names it.
pub open spec fn message_of(error: RunErrorView) -> Seq<char> {
    match error {
        RunErrorView::InvalidTarget { total_inodes, depth } => "Cannot spread "@ + decimal(
            total_inodes,
        ) + " inodes over a depth of "@ + decimal(depth),
        RunErrorView::InvalidRootPath { path } => "Provided path "@ + path + " does not exist"@,
        RunErrorView::DirectoryCreation { path, role } => match role {
            DirRole::WorkRoot => "Failed to create root directory "@ + path,
            DirRole::Level => "Failed to create inode directory "@ + path,
        },
        RunErrorView::InodeCreation { path, step } => match step {
            FileStep::Create => "Failed to create inode file "@ + path,
            FileStep::Write => "Failed to write to inode file "@ + path,
        },
        RunErrorView::NamesExhausted => "Failed to find an unused name"@,
        RunErrorView::UnexpectedReply => "Reply does not answer the open request"@,
    }
}

impl RunError {
    /// The message for this error.
    pub fn message(&self) -> (text: String)
        ensures
            text@ == message_of(self@),
    {
        match self {
            RunError::InvalidTarget { total_inodes, depth } => {
                let mut text = wrap(
                    "Cannot spread ",
                    decimal_text(*total_inodes as u128).as_str(),
                    " inodes over a depth of ",
                );
                text.append(decimal_text(*depth as u128).as_str());
                text
            },
            RunError::InvalidRootPath { path } => wrap(
                "Provided path ",
                path.as_str(),
                " does not exist",
            ),
            RunError::DirectoryCreation { path, role } => match role {
                DirRole::WorkRoot => prefixed("Failed to create root directory ", path.as_str()),
                DirRole::Level => prefixed("Failed to create inode directory ", path.as_str()),
            },
            RunError::InodeCreation { path, step } => match step {
                FileStep::Create => prefixed("Failed to create inode file ", path.as_str()),
                FileStep::Write => prefixed("Failed to write to inode file ", path.as_str()),
            },
            RunError::NamesExhausted => String::from_str("Failed to find an unused name"),
            RunError::UnexpectedReply => String::from_str("Reply does not answer the open request"),
        }
    }

    /// A copy of this error.
    pub fn duplicate(&self) -> (copy: RunError)
        ensures
            copy@ == self@,
    {
        match self {
            RunError::InvalidTarget { total_inodes, depth } => RunError::InvalidTarget {
                total_inodes: *total_inodes,
                depth: *depth,
            },
            RunError::InvalidRootPath { path } => RunError::InvalidRootPath { path: path.clone() },
            RunError::DirectoryCreation { path, role } => RunError::DirectoryCreation {
                path: path.clone(),
                role: *role,
            },
            RunError::InodeCreation { path, step } => RunError::InodeCreation {
                path: path.clone(),
                step: *step,
            },
            RunError::NamesExhausted => RunError::NamesExhausted,
            RunError::UnexpectedReply => RunError::UnexpectedReply,
        }
    }
}

} // verus!
