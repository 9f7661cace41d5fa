//! The administrative resources and the names under which they are served.

use vstd::prelude::*;

verus! {

/// Applications: list, create from a template, update, delete.
#[derive(Default)]
pub struct AppsResource;

/// The runner that starts load tests and reports their progress.
#[derive(Default)]
pub struct BenchmarksResource;

/// The best result of every load test.
#[derive(Default)]
pub struct BestResultsResource;

/// The files of an application.
#[derive(Default)]
pub struct FilesResource;

/// Deploy keys for git.
#[derive(Default)]
pub struct KeysResource;

/// Git repositories of applications.
#[derive(Default)]
pub struct ReposResource;

/// The tables of an application's schema.
#[derive(Default)]
pub struct SchemasResource;

impl AppsResource {
    pub fn name(&self) -> (name: &'static str)
        ensures
            name@ == "apps"@,
    {
        "apps"
    }
}

impl BenchmarksResource {
    pub fn name(&self) -> (name: &'static str)
        ensures
            name@ == "runner"@,
    {
        "runner"
    }
}

impl BestResultsResource {
    pub fn name(&self) -> (name: &'static str)
        ensures
            name@ == "bestresults"@,
    {
        "bestresults"
    }

    /// The best results may be read without credentials.
    pub fn is_public(&self) -> (public: bool)
        ensures
            public,
    {
        true
    }
}

impl FilesResource {
    pub fn name(&self) -> (name: &'static str)
        ensures
            name@ == "files"@,
    {
        "files"
    }
}

impl KeysResource {
    pub fn name(&self) -> (name: &'static str)
        ensures
            name@ == "keys"@,
    {
        "keys"
    }
}

impl ReposResource {
    pub fn name(&self) -> (name: &'static str)
        ensures
            name@ == "repos"@,
    {
        "repos"
    }
}

impl SchemasResource {
    pub fn name(&self) -> (name: &'static str)
        ensures
            name@ == "schemas"@,
    {
        "schemas"
    }
}

} // verus!
