//! The error taxonomy of the library. Domain errors carry the values they
//! report, and `message` renders each as the human-readable line shown to the
//! user.
use vstd::prelude::*;
use vstd::string::StringExecFns;
use crate::text::spec_i32_dec;
use crate::text::i32_to_string;

verus! {

#[derive(Debug, PartialEq, Eq, Clone)]
pub enum CrackerError {
    /// The package reference fails the grammar.
    MalformedReference { reference: String },
    /// The package reference is shorter than the package manager accepts.
    ReferenceTooShort { reference: String },
    /// The persisted index belongs to another user.
    OwnershipMismatch { owned_by: String, called_by: String },
    /// The external install command exited with a non-zero status.
    InstallFailure { status: i32, stdout: String, stderr: String },
    /// The generated environment file held no usable PATH assignment.
    CannotDeduceBinaryPath,
    /// The parent directory of the bin directory could not be determined.
    PathDerivationError,
    /// No project name could be taken from the version-control URL.
    GitUrlUnparsable { url: String },
    /// The persisted index could not be decoded.
    Decode,
}

/// What `message` returns for each error value.
pub open spec fn spec_message(e: CrackerError) -> Seq<char> {
    match e {
        CrackerError::MalformedReference { reference } => "Your reference does not match a regex pattern, "@
            + reference@,
        CrackerError::ReferenceTooShort { reference } => "conan package provided("@ + reference@
            + ") is too short, conan does not handle that 5+ charachters only."@,
        CrackerError::OwnershipMismatch { owned_by, called_by } => "Cracker storage owned by: '"@
            + owned_by@ + "' while you are: '"@ + called_by@ + "'"@,
        CrackerError::InstallFailure { status, stdout, stderr } => "conan install failed with exit code "@
            + spec_i32_dec(status as int) + " \nstdout:\n"@ + stdout@ + " \nstderr:\n"@ + stderr@,
        CrackerError::CannotDeduceBinaryPath => "environment_run.sh.env did not contain correct PATH? non binary package requested?"@,
        CrackerError::PathDerivationError => "Unable to extract parent path"@,
        CrackerError::GitUrlUnparsable { url } => "Unable to extract project name from url: "@
            + url@,
        CrackerError::Decode => "Unable to decode the cracker index."@,
    }
}

impl CrackerError {
    /// The human-readable rendering of this error.
    pub fn message(&self) -> (r: String)
        ensures
            r@ == spec_message(*self),
    {
        match self {
            CrackerError::MalformedReference { reference } => {
                let mut r = String::from_str("Your reference does not match a regex pattern, ");
                r.append(reference.as_str());
                r
            },
            CrackerError::ReferenceTooShort { reference } => {
                let mut r = String::from_str("conan package provided(");
                r.append(reference.as_str());
                r.append(") is too short, conan does not handle that 5+ charachters only.");
                r
            },
            CrackerError::OwnershipMismatch { owned_by, called_by } => {
                let mut r = String::from_str("Cracker storage owned by: '");
                r.append(owned_by.as_str());
                r.append("' while you are: '");
                r.append(called_by.as_str());
                r.append("'");
                r
            },
            CrackerError::InstallFailure { status, stdout, stderr } => {
                let mut r = String::from_str("conan install failed with exit code ");
                let status_text = i32_to_string(*status);
                r.append(status_text.as_str());
                r.append(" \nstdout:\n");
                r.append(stdout.as_str());
                r.append(" \nstderr:\n");
                r.append(stderr.as_str());
                r
            },
            CrackerError::CannotDeduceBinaryPath => {
                String::from_str(
                    "environment_run.sh.env did not contain correct PATH? non binary package requested?",
                )
            },
            CrackerError::PathDerivationError => String::from_str("Unable to extract parent path"),
            CrackerError::GitUrlUnparsable { url } => {
                let mut r = String::from_str("Unable to extract project name from url: ");
                r.append(url.as_str());
                r
            },
            CrackerError::Decode => String::from_str("Unable to decode the cracker index."),
        }
    }
}

} // verus!
