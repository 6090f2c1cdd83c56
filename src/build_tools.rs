//! Build units, and the ordered list of recognizers that find them.
use crate::files::FileSet;
use crate::path::{child_spec, DirPath, PathView};
use vstd::prelude::*;

pub mod docker;
pub mod gitlab;

verus! {

/// The directory that a build unit covers. `dependencies` is kept for later
/// use; resolution leaves it empty.
#[derive(Debug, PartialEq, Eq, Hash)]
pub struct BuildConfig {
    pub directory: DirPath,
    pub dependencies: Vec<BuildConfig>,
}

impl BuildConfig {
    /// A configuration for `directory`, with no dependencies.
    pub fn new(directory: DirPath) -> (r: BuildConfig)
        ensures
            r.directory@ == directory@,
            r.dependencies@.len() == 0,
    {
        BuildConfig { directory, dependencies: Vec::new() }
    }
}

/// The kinds of build tool that are recognized.
#[derive(Clone, Copy, Debug, PartialEq, Eq, Hash, Structural)]
pub enum ToolKind {
    Pipeline,
    Container,
}

/// What identifies a build unit: its tool kind and its directory.
pub type UnitView = (ToolKind, PathView);

/// The file whose presence marks a CI pipeline.
pub open spec fn pipeline_marker() -> Seq<char> {
    ".gitlab-ci.yml"@
}

/// The default file whose presence marks a container build.
pub open spec fn container_marker() -> Seq<char> {
    "Dockerfile"@
}

/// What the recognizers find in `dir`, tried in their fixed order: a pipeline
/// first, then a container build.
pub open spec fn recognize_spec(files: Set<PathView>, dir: PathView) -> Option<UnitView> {
    if files.contains(child_spec(dir, pipeline_marker())) {
        Some((ToolKind::Pipeline, dir))
    } else if files.contains(child_spec(dir, container_marker())) {
        Some((ToolKind::Container, dir))
    } else {
        None
    }
}

/// A build unit of one of the known tools.
#[derive(Debug, PartialEq, Eq, Hash)]
pub enum BuildTools {
    Docker(docker::DockerBuild),
    GitLab(gitlab::GitLabBuild),
}

/// The shared capability of build units: an identity string.
pub trait BuildTool {
    spec fn spec_id(&self) -> Seq<char>;

    fn id(&self) -> (r: String)
        ensures
            r@ == self.spec_id(),
    ;
}

impl BuildTools {
    /// The identity of the unit: tool kind and directory.
    pub open spec fn unit(&self) -> UnitView {
        match self {
            BuildTools::Docker(d) => (ToolKind::Container, d.config.directory@),
            BuildTools::GitLab(g) => (ToolKind::Pipeline, g.config.directory@),
        }
    }

    /// The configuration that the unit carries.
    pub open spec fn spec_config(&self) -> BuildConfig {
        match self {
            BuildTools::Docker(d) => d.config,
            BuildTools::GitLab(g) => g.config,
        }
    }

    /// The tool kind of the unit.
    pub fn kind(&self) -> (r: ToolKind)
        ensures
            r == self.unit().0,
    {
        match self {
            BuildTools::Docker(_) => ToolKind::Container,
            BuildTools::GitLab(_) => ToolKind::Pipeline,
        }
    }

    /// The configuration of the unit.
    pub fn config(&self) -> (r: &BuildConfig)
        ensures
            *r == self.spec_config(),
            r.directory@ == self.unit().1,
    {
        match self {
            BuildTools::Docker(d) => &d.config,
            BuildTools::GitLab(g) => &g.config,
        }
    }

    /// Whether the two units are the same unit: same tool kind, same directory.
    pub fn same_unit(&self, other: &BuildTools) -> (r: bool)
        ensures
            r == (self.unit() == other.unit()),
    {
        let k1 = self.kind();
        let k2 = other.kind();
        if k1 != k2 {
            return false;
        }
        self.config().directory.same(&other.config().directory)
    }
}

/// Whether the directory of `config` holds a file named `name`.
pub fn marker_present(config: &BuildConfig, files: &FileSet, name: &str) -> (r: bool)
    ensures
        r == files@.contains(child_spec(config.directory@, name@)),
{
    let marker = config.directory.child(name);
    files.contains(&marker)
}

/// Runs the recognizers in their fixed order on `config` and returns the first
/// unit found, which carries `config` as it was given.
pub fn recognize(config: BuildConfig, files: &FileSet) -> (r: Option<BuildTools>)
    ensures
        r matches Some(u) ==> (Some(u.unit()) == recognize_spec(files@, config.directory@)
            && u.spec_config() == config),
        r matches Some(u) ==> (u is Docker ==> u->Docker_0.dockerfile@ == container_marker()),
        r is None ==> recognize_spec(files@, config.directory@) is None,
{
    if marker_present(&config, files, ".gitlab-ci.yml") {
        gitlab::detect(config, files)
    } else {
        docker::detect(config, files)
    }
}

} // verus!
