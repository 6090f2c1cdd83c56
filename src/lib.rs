//! Works out which build units must run in a repository that holds several
//! projects, by walking up from each changed directory to the nearest
//! directory that a build tool recognizes.
pub mod build_tools;
pub mod detect;
pub mod files;
pub mod observe;
pub mod path;
