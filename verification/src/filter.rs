//! Which files and features a synchronisation covers.
use crate::path::{extension, path_extension};
use vstd::prelude::*;

verus! {

/// The extension of session files.
pub const SESSION_EXTENSION: &'static str = "jsonl";

/// Which files are synchronised.
#[derive(Clone, Copy, Debug, PartialEq, Eq, Structural)]
pub struct FilterConfig {
    /// Leave out every file that is no session.
    pub exclude_attachments: bool,
}

/// Which features the user has chosen.
#[derive(Clone, Copy, Debug, PartialEq, Eq, Structural)]
pub struct Features {
    /// Lay the sync repository out by project name instead of by local directory.
    pub use_project_name_only: bool,
    /// Synchronise `settings.json` too.
    pub sync_settings: bool,
    /// Set up Git LFS before a push.
    pub enable_lfs: bool,
}

impl Default for FilterConfig {
    fn default() -> (r: Self)
        ensures
            r == (FilterConfig { exclude_attachments: false }),
    {
        FilterConfig { exclude_attachments: false }
    }
}

impl FilterConfig {
    /// Whether a file is synchronised.
    pub open spec fn includes(self, path: Seq<char>) -> bool {
        self.exclude_attachments ==> extension(path) == Some(SESSION_EXTENSION@)
    }

    /// Whether the file at `path` is synchronised: every file, or only session files where
    /// attachments are left out.
    pub fn should_include(&self, path: &str) -> (r: bool)
        ensures
            r == self.includes(path@),
    {
        if !self.exclude_attachments {
            return true;
        }
        match path_extension(path) {
            Some(ext) => ext == SESSION_EXTENSION.to_string(),
            None => false,
        }
    }

    /// The choices with attachments left out where `exclude` says so.
    pub fn excluding_attachments(self, exclude: bool) -> (r: Self)
        ensures
            r == (FilterConfig { exclude_attachments: self.exclude_attachments || exclude }),
    {
        if exclude {
            FilterConfig { exclude_attachments: true }
        } else {
            self
        }
    }
}

/// Attachments are left out exactly where the choice says so: then a file is synchronised only
/// with the extension `jsonl`, otherwise every file is.
pub proof fn only_sessions_where_attachments_are_left_out(filter: FilterConfig, path: Seq<char>)
    ensures
        !filter.exclude_attachments ==> filter.includes(path),
        filter.exclude_attachments ==> (filter.includes(path) <==> extension(path) == Some("jsonl"@)),
{
}

} // verus!
