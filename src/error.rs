//! Why a launch fails, and the message shown for it.
use vstd::prelude::*;
use crate::options::{fault_text, OptionError};
use crate::text::{decimal, push_decimal, push_signed_decimal, signed_decimal};

verus! {

/// A file-system location the launcher needs.
#[derive(Clone, Copy, Debug, PartialEq, Eq, Structural)]
pub enum Resource {
    Backend,
    Frontend,
    ConfigDir,
}

/// A path that has to be handed to the backend in the subsystem's addressing.
#[derive(Clone, Copy, Debug, PartialEq, Eq, Structural)]
pub enum PathRole {
    Backend,
    Frontend,
    Base,
    ConfigDir,
    Folder,
}

/// Why a launch failed.
#[derive(Clone, Debug)]
pub enum LaunchError {
    /// A failed file-system query, with the system's message.
    Io(String),
    InputPathMissing,
    InputPathUnusable,
    HomeNotFound,
    PathNotFound(Resource),
    PathTranslationFailed(PathRole),
    SymlinkConflict,
    /// The link to a configuration directory with a space could not be made.
    SymlinkFailed,
    OptionValidationFailed(OptionError),
    PortInvalid(String),
    NoFreePort,
    SpawnFailed(String),
    BackendExitedEarly(Option<i32>),
    ReadinessTimeout { port: u16, elapsed_secs: u64, last_error: Option<String> },
}

pub open spec fn resource_text(r: Resource) -> Seq<char> {
    match r {
        Resource::Backend => "backend/bin/carta_backend binary not found"@,
        Resource::Frontend => "frontend directory not found"@,
        Resource::ConfigDir => "backend/etc directory not found"@,
    }
}

pub open spec fn role_text(r: PathRole) -> Seq<char> {
    match r {
        PathRole::Backend => "backend"@,
        PathRole::Frontend => "frontend"@,
        PathRole::Base => "base"@,
        PathRole::ConfigDir => "etc"@,
        PathRole::Folder => "folder option"@,
    }
}

/// The message shown for a launch error.
pub open spec fn error_text(e: LaunchError) -> Seq<char> {
    match e {
        LaunchError::Io(m) => m@,
        LaunchError::InputPathMissing => "Requested file or directory does not exist"@,
        LaunchError::InputPathUnusable => "Requested path is neither a file nor a directory"@,
        LaunchError::HomeNotFound => "HOME directory not found"@,
        LaunchError::PathNotFound(r) => resource_text(r),
        LaunchError::PathTranslationFailed(r) => "Failed to convert "@ + role_text(r)
            + " path to WSL format"@,
        LaunchError::SymlinkConflict => "symlink path already exists"@,
        LaunchError::SymlinkFailed => "Failed to create symlink /tmp/carta-etc to the configuration directory, whose path holds a space"@,
        LaunchError::OptionValidationFailed(o) => fault_text(o@),
        LaunchError::PortInvalid(m) => m@,
        LaunchError::NoFreePort => "Error: No free port available."@,
        LaunchError::SpawnFailed(m) => "Failed to start the backend: "@ + m@,
        LaunchError::BackendExitedEarly(code) => match code {
            Some(c) => "Backend exited before it was ready (exit status "@ + signed_decimal(
                c as int,
            ) + ")"@,
            None => "Backend exited before it was ready (terminated by a signal)"@,
        },
        LaunchError::ReadinessTimeout { port, elapsed_secs, last_error } => "Backend not ready on port "@
            + decimal(port as nat) + " after "@ + decimal(elapsed_secs as nat) + "s"@
            + match last_error {
            Some(m) => " ("@ + m@ + ")"@,
            None => Seq::empty(),
        },
    }
}

fn resource_message(r: Resource) -> (s: &'static str)
    ensures
        s@ == resource_text(r),
{
    match r {
        Resource::Backend => "backend/bin/carta_backend binary not found",
        Resource::Frontend => "frontend directory not found",
        Resource::ConfigDir => "backend/etc directory not found",
    }
}

fn role_name(r: PathRole) -> (s: &'static str)
    ensures
        s@ == role_text(r),
{
    match r {
        PathRole::Backend => "backend",
        PathRole::Frontend => "frontend",
        PathRole::Base => "base",
        PathRole::ConfigDir => "etc",
        PathRole::Folder => "folder option",
    }
}

impl LaunchError {
    /// The message for the user, with the details needed to diagnose the failure.
    pub fn message(&self) -> (r: String)
        ensures
            r@ == error_text(*self),
    {
        match self {
            LaunchError::Io(m) => m.clone(),
            LaunchError::InputPathMissing => String::from_str(
                "Requested file or directory does not exist",
            ),
            LaunchError::InputPathUnusable => String::from_str(
                "Requested path is neither a file nor a directory",
            ),
            LaunchError::HomeNotFound => String::from_str("HOME directory not found"),
            LaunchError::PathNotFound(r) => String::from_str(resource_message(*r)),
            LaunchError::PathTranslationFailed(r) => {
                let mut s = String::from_str("Failed to convert ");
                s.append(role_name(*r));
                s.append(" path to WSL format");
                s
            },
            LaunchError::SymlinkConflict => String::from_str("symlink path already exists"),
            LaunchError::SymlinkFailed => String::from_str(
                "Failed to create symlink /tmp/carta-etc to the configuration directory, whose path holds a space",
            ),
            LaunchError::OptionValidationFailed(o) => o.message(),
            LaunchError::PortInvalid(m) => m.clone(),
            LaunchError::NoFreePort => String::from_str("Error: No free port available."),
            LaunchError::SpawnFailed(m) => {
                let mut s = String::from_str("Failed to start the backend: ");
                s.append(m.as_str());
                s
            },
            LaunchError::BackendExitedEarly(code) => match code {
                Some(c) => {
                    let mut s = String::from_str("Backend exited before it was ready (exit status ");
                    push_signed_decimal(&mut s, *c);
                    s.append(")");
                    s
                },
                None => String::from_str(
                    "Backend exited before it was ready (terminated by a signal)",
                ),
            },
            LaunchError::ReadinessTimeout { port, elapsed_secs, last_error } => {
                let mut s = String::from_str("Backend not ready on port ");
                push_decimal(&mut s, *port as u64);
                s.append(" after ");
                push_decimal(&mut s, *elapsed_secs);
                s.append("s");
                match last_error {
                    Some(m) => {
                        s.append(" (");
                        s.append(m.as_str());
                        s.append(")");
                    },
                    None => {
                        assert(s@ + Seq::<char>::empty() =~= s@);
                    },
                }
                s
            },
        }
    }
}

} // verus!
