//! The container build recognizer.
use super::{container_marker, marker_present, BuildConfig, BuildTool, BuildTools};
use crate::files::FileSet;
use crate::path::{child_spec, render_spec};
use vstd::prelude::*;

verus! {

/// A unit built by a container build from the file `dockerfile` in its directory.
#[derive(Debug, PartialEq, Eq, Hash)]
pub struct DockerBuild {
    pub config: BuildConfig,
    pub dockerfile: String,
}

/// The tag given to every image built.
pub open spec fn image_tag() -> Seq<char> {
    "weave_build"@
}

/// The container unit for `config`, carrying it, when its directory holds
/// the file `name`.
pub fn detect_named(config: BuildConfig, files: &FileSet, name: &str) -> (r: Option<BuildTools>)
    ensures
        r is Some <==> files@.contains(child_spec(config.directory@, name@)),
        r matches Some(u) ==> (u is Docker && u->Docker_0.config == config
            && u->Docker_0.dockerfile@ == name@),
{
    if marker_present(&config, files, name) {
        Some(BuildTools::Docker(DockerBuild { config, dockerfile: String::from_str(name) }))
    } else {
        None
    }
}

/// The container unit for `config`, carrying it, when its directory holds a `Dockerfile`.
pub fn detect(config: BuildConfig, files: &FileSet) -> (r: Option<BuildTools>)
    ensures
        r is Some <==> files@.contains(child_spec(config.directory@, container_marker())),
        r matches Some(u) ==> (u is Docker && u->Docker_0.config == config
            && u->Docker_0.dockerfile@ == container_marker()),
{
    detect_named(config, files, "Dockerfile")
}

impl DockerBuild {
    /// The command that builds the image: the program, then its arguments.
    pub fn command(&self) -> (r: Vec<String>)
        ensures
            r@.map_values(|s: String| s@) == seq![
                "docker"@,
                "image"@,
                "build"@,
                "-f"@,
                render_spec(child_spec(self.config.directory@, self.dockerfile@)),
                "-t"@,
                image_tag(),
                render_spec(self.config.directory@),
            ],
    {
        let file = self.config.directory.child(self.dockerfile.as_str());
        let mut r: Vec<String> = Vec::new();
        r.push(String::from_str("docker"));
        r.push(String::from_str("image"));
        r.push(String::from_str("build"));
        r.push(String::from_str("-f"));
        r.push(file.render());
        r.push(String::from_str("-t"));
        r.push(String::from_str("weave_build"));
        r.push(self.config.directory.render());
        assert(r@.map_values(|s: String| s@) =~= seq![
            "docker"@,
            "image"@,
            "build"@,
            "-f"@,
            render_spec(child_spec(self.config.directory@, self.dockerfile@)),
            "-t"@,
            image_tag(),
            render_spec(self.config.directory@),
        ]);
        r
    }
}

impl BuildTool for DockerBuild {
    open spec fn spec_id(&self) -> Seq<char> {
        render_spec(self.config.directory@) + seq!['/'] + self.dockerfile@
    }

    /// The text of the directory, a `/`, and the name of the build file.
    fn id(&self) -> (r: String) {
        let mut r = self.config.directory.render();
        r.append("/");
        proof {
            reveal_strlit("/");
        }
        r.append(self.dockerfile.as_str());
        r
    }
}

} // verus!
