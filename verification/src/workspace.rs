//! The workspace: its packages, its dependency graphs, and the root
//! package's identity.

use vstd::prelude::*;

use crate::bump::{Bump, BumpExt, Version};
use crate::graphs::{declares_dep, graph_view, graph_wf, has_edge, workspace_graph, WorkspaceGraphs};
use crate::packages::{Package, Packages};

verus! {

/// A loaded workspace, immutable for the run.
pub struct Workspace {
    /// The dependency graphs over the member indices.
    pub graphs: WorkspaceGraphs,
    /// The members.
    pub packages: Packages,
    /// The workspace directory, relative to the repository root.
    pub directory: Vec<u8>,
    /// The root package's name.
    pub root_name: Vec<u8>,
    /// The root package's version.
    pub root_version: Version,
    /// Path of the workspace manifest, relative to the repository root.
    pub manifest_path: Vec<u8>,
}

impl Workspace {
    /// The graphs describe exactly the declared member-to-member
    /// dependencies.
    pub open spec fn graphs_wf(self) -> bool {
        &&& self.graphs.dependencies@.len() == self.packages.inner@.len()
        &&& self.graphs.dependants@.len() == self.packages.inner@.len()
        &&& graph_wf(graph_view(self.graphs.dependencies@))
        &&& graph_wf(graph_view(self.graphs.dependants@))
        &&& forall|i: int, j: int| #[trigger]
            has_edge(graph_view(self.graphs.dependencies@), i, j) <==> declares_dep(
                self.packages.inner@,
                i,
                j,
            )
        &&& forall|i: int, j: int| #[trigger]
            has_edge(graph_view(self.graphs.dependants@), j, i) <==> declares_dep(
                self.packages.inner@,
                i,
                j,
            )
    }

    /// Creates a new workspace: builds both dependency graphs from the
    /// loaded packages.
    pub fn new(
        packages: Packages,
        directory: Vec<u8>,
        root_name: Vec<u8>,
        root_version: Version,
        manifest_path: Vec<u8>,
    ) -> (r: Workspace)
        ensures
            r.packages == packages,
            r.directory == directory,
            r.root_name == root_name,
            r.root_version == root_version,
            r.manifest_path == manifest_path,
            r.graphs_wf(),
    {
        let graphs = workspace_graph(&packages.inner);
        Workspace { graphs, packages, directory, root_name, root_version, manifest_path }
    }

    /// Returns workspace package version.
    pub fn version(&self) -> (r: &Version)
        ensures
            r == &self.root_version,
    {
        &self.root_version
    }

    /// Returns workspace package name.
    pub fn name(&self) -> (r: &Vec<u8>)
        ensures
            r == &self.root_name,
    {
        &self.root_name
    }

    /// Returns workspace packages.
    pub fn packages(&self) -> (r: &Packages)
        ensures
            r == &self.packages,
    {
        &self.packages
    }

    /// Finds a package by name.
    pub fn find_package(&self, name: &Vec<u8>) -> (r: Option<usize>)
        ensures
            match r {
                Some(i) => i < self.packages.inner@.len() && self.packages.inner@[i as int].name@
                    == name@ && forall|j: int|
                    0 <= j < i ==> self.packages.inner@[j].name@ != name@,
                None => forall|j: int|
                    0 <= j < self.packages.inner@.len() ==> self.packages.inner@[j].name@ != name@,
            },
    {
        self.packages.find_by_name(name)
    }

    /// The root package's version after a bump; the caller records it in
    /// the root package descriptor file.
    pub fn bump(&self, bump: Bump) -> (r: Version)
        requires
            self.root_version.can_bump(bump),
        ensures
            r == self.root_version.spec_bump(bump),
    {
        self.root_version.bump(bump)
    }

    /// Returns the path to the workspace manifest.
    pub fn manifest_path(&self) -> (r: &Vec<u8>)
        ensures
            r == &self.manifest_path,
    {
        &self.manifest_path
    }
}

} // verus!
