//! The errors of every operation.
use vstd::prelude::*;
use vstd::string::StringExecFns;

verus! {

/// Each operation ends in at most one of these.
#[derive(Debug, PartialEq, Eq)]
pub enum ClubError {
    ManifestNotFound,
    ManifestReadFail(String),
    ManifestWriteFail(String),
    ClubNotSetup,
    ClubAlreadySetup,
    RemoteNotFound,
    RemoteAlreadyExists,
    InvalidRemoteName,
    InvalidRemoteId,
    NoRemotesAvailable,
    BothRemoteAndAllPassed,
    ClaspError(String),
}

fn prefixed(prefix: &str, detail: &String) -> (r: String)
    ensures
        r@ == prefix@ + detail@,
{
    let mut s = String::from_str(prefix);
    s.append(detail.as_str());
    s
}

impl ClubError {
    /// The text shown to the user for this error.
    pub fn message(&self) -> (r: String)
        ensures
            self is ManifestNotFound ==> r@ == "No clasp manifest found. Are you in a clasp project?"@,
            self matches ClubError::ManifestReadFail(d) ==> r@ == "Error reading clasp manifest: "@ + d@,
            self is ClubNotSetup ==> r@
                == "Club is not set up for this project. Run `club init` to set up club."@,
            self is RemoteNotFound ==> r@ == "Remote not found."@,
            self is RemoteAlreadyExists ==> r@
                == "New remote name already exists. Remove or rename it first."@,
            self is InvalidRemoteName ==> r@
                == "Invalid remote name. Remote names must be alphanumeric and may contain hyphens and underscores."@,
            self is InvalidRemoteId ==> r@
                == "Invalid remote id. Remote IDs are always 57 characters long and contain only alphanumeric characters, hyphens, and underscores."@,
            self is ClubAlreadySetup ==> r@ == "Club is already set up for this project."@,
            self matches ClubError::ManifestWriteFail(d) ==> r@ == "Error writing clasp manifest: "@ + d@,
            self is NoRemotesAvailable ==> r@ == "No remotes exist. Run `club set` to add a remote."@,
            self is BothRemoteAndAllPassed ==> r@ == "Cannot pass both a remote and the --all flag."@,
            self matches ClubError::ClaspError(d) ==> r@ == "Error running clasp: "@ + d@,
    {
        let r = match self {
            ClubError::ManifestNotFound => String::from_str(
                "No clasp manifest found. Are you in a clasp project?",
            ),
            ClubError::ManifestReadFail(err) => prefixed("Error reading clasp manifest: ", err),
            ClubError::ClubNotSetup => String::from_str(
                "Club is not set up for this project. Run `club init` to set up club.",
            ),
            ClubError::RemoteNotFound => String::from_str("Remote not found."),
            ClubError::RemoteAlreadyExists => String::from_str(
                "New remote name already exists. Remove or rename it first.",
            ),
            ClubError::InvalidRemoteName => String::from_str(
                "Invalid remote name. Remote names must be alphanumeric and may contain hyphens and underscores.",
            ),
            ClubError::InvalidRemoteId => String::from_str(
                "Invalid remote id. Remote IDs are always 57 characters long and contain only alphanumeric characters, hyphens, and underscores.",
            ),
            ClubError::ClubAlreadySetup => String::from_str(
                "Club is already set up for this project.",
            ),
            ClubError::ManifestWriteFail(err) => prefixed("Error writing clasp manifest: ", err),
            ClubError::NoRemotesAvailable => String::from_str(
                "No remotes exist. Run `club set` to add a remote.",
            ),
            ClubError::BothRemoteAndAllPassed => String::from_str(
                "Cannot pass both a remote and the --all flag.",
            ),
            ClubError::ClaspError(err) => prefixed("Error running clasp: ", err),
        };
        r
    }
}

} // verus!
