//! Build identification: the crate version and, when a build embeds them,
//! the commit it was built from.
use vstd::prelude::*;

verus! {

use vstd::string::StrSliceExecFns;
use vstd::string::StringExecFns;

/// The commit a build was made from.
pub struct CommitInfo {
    pub hash: &'static str,
    pub short_hash: &'static str,
    pub date: &'static str,
}

/// The version of a build, with the commit when one is recorded.
pub struct VersionInfo {
    pub version: &'static str,
    pub commit_info: Option<CommitInfo>,
}

impl VersionInfo {
    /// The human-readable form: `v<version>`, followed by
    /// ` (<short-hash> <date>)` when commit information is present.
    pub fn display_string(&self) -> (r: String)
        ensures
            self.commit_info is None ==> r@ == "v"@ + self.version@,
            self.commit_info matches Some(ci) ==> r@ == "v"@ + self.version@ + " ("@
                + ci.short_hash@ + " "@ + ci.date@ + ")"@,
    {
        let mut s: String = "v".to_owned();
        s.append(self.version);
        match &self.commit_info {
            Option::None => s,
            Option::Some(ci) => {
                s.append(" (");
                s.append(ci.short_hash);
                s.append(" ");
                s.append(ci.date);
                s.append(")");
                s
            },
        }
    }
}

/// The version of this build.  No release or commit metadata is embedded
/// here, so the version is the placeholder and the commit is absent; a
/// packaging layer that knows both can construct its own [`VersionInfo`].
pub fn version() -> (r: VersionInfo)
    ensures
        r.version@ == "0.0.0"@,
        r.commit_info is None,
{
    VersionInfo { version: "0.0.0", commit_info: None }
}

} // verus!
