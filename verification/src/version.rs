//! What the monitor tells of its own build.

use crate::server::Server;
use vstd::prelude::*;

verus! {

/// What a `Version` and a `VersionResponse` stand for.
pub struct VersionView {
    pub version: Seq<char>,
    pub tag: Seq<char>,
    pub commit: Seq<char>,
    pub build_date: Seq<char>,
    pub rust_version: Seq<char>,
}

/// The facts of the build, as whoever built the monitor recorded them.
#[derive(Debug, Clone, PartialEq, Eq)]
pub struct Version {
    version: String,
    tag: String,
    commit: String,
    build_date: String,
    rust_version: String,
}

impl View for Version {
    type V = VersionView;

    closed spec fn view(&self) -> VersionView {
        VersionView {
            version: self.version@,
            tag: self.tag@,
            commit: self.commit@,
            build_date: self.build_date@,
            rust_version: self.rust_version@,
        }
    }
}

impl Version {
    pub fn new(
        version: String,
        tag: String,
        commit: String,
        build_date: String,
        rust_version: String,
    ) -> (v: Version)
        ensures
            v@ == (VersionView {
                version: version@,
                tag: tag@,
                commit: commit@,
                build_date: build_date@,
                rust_version: rust_version@,
            }),
    {
        Version { version, tag, commit, build_date, rust_version }
    }

    pub fn version(&self) -> (text: &String)
        ensures
            text@ == self@.version,
    {
        &self.version
    }

    pub fn tag(&self) -> (text: &String)
        ensures
            text@ == self@.tag,
    {
        &self.tag
    }

    pub fn commit(&self) -> (text: &String)
        ensures
            text@ == self@.commit,
    {
        &self.commit
    }

    pub fn build_date(&self) -> (text: &String)
        ensures
            text@ == self@.build_date,
    {
        &self.build_date
    }

    pub fn rust_version(&self) -> (text: &String)
        ensures
            text@ == self@.rust_version,
    {
        &self.rust_version
    }
}

/// The answer to a request for the version.
#[derive(Debug, Clone, PartialEq, Eq)]
pub struct VersionResponse {
    pub version: String,
    pub tag: String,
    pub commit: String,
    pub build_date: String,
    pub rust_version: String,
}

impl View for VersionResponse {
    type V = VersionView;

    open spec fn view(&self) -> VersionView {
        VersionView {
            version: self.version@,
            tag: self.tag@,
            commit: self.commit@,
            build_date: self.build_date@,
            rust_version: self.rust_version@,
        }
    }
}

impl Server {
    /// Answers a request for the version: the five facts of the build, as
    /// they are. The server is not changed, and the call cannot fail.
    pub fn version(&self, build: &Version) -> (response: VersionResponse)
        ensures
            response@ == build@,
    {
        VersionResponse {
            version: build.version().clone(),
            tag: build.tag().clone(),
            commit: build.commit().clone(),
            build_date: build.build_date().clone(),
            rust_version: build.rust_version().clone(),
        }
    }
}

} // verus!
