//! The CI pipeline recognizer.
use super::{marker_present, pipeline_marker, BuildConfig, BuildTool, BuildTools};
use crate::files::FileSet;
use crate::path::{child_spec, render_spec};
use vstd::prelude::*;

verus! {

/// A unit built by the CI pipeline that its directory configures.
#[derive(Debug, PartialEq, Eq, Hash)]
pub struct GitLabBuild {
    pub config: BuildConfig,
}

/// The pipeline unit for `config`, carrying it, when its directory holds `.gitlab-ci.yml`.
pub fn detect(config: BuildConfig, files: &FileSet) -> (r: Option<BuildTools>)
    ensures
        r is Some <==> files@.contains(child_spec(config.directory@, pipeline_marker())),
        r matches Some(u) ==> (u is GitLab && u->GitLab_0.config == config),
{
    if marker_present(&config, files, ".gitlab-ci.yml") {
        Some(BuildTools::GitLab(GitLabBuild { config }))
    } else {
        None
    }
}

impl GitLabBuild {
    /// The pipeline can only run inside the CI service, so building here does
    /// nothing and reports success; the caller says so to the user.
    pub fn build(&self) -> (r: bool)
        ensures
            r,
    {
        true
    }
}

impl BuildTool for GitLabBuild {
    open spec fn spec_id(&self) -> Seq<char> {
        render_spec(self.config.directory@)
    }

    /// The directory's text.
    fn id(&self) -> (r: String) {
        self.config.directory.render()
    }
}

} // verus!
