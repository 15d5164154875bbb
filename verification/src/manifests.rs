//! Package and workspace manifest pairs.
//!
//! Each package, and the workspace root, carries two parallel manifest
//! documents: the head variant (the last recorded snapshot) and the index
//! variant (the current disk state). Every mutation is applied to both
//! identically; previews of both are saved beside the canonical file.

use vstd::prelude::*;

use crate::bump::{Bump, BumpExt, Version};
use crate::files::{
    dir_prefix, preview_head_name, preview_head_name_vec, preview_index_name,
    preview_index_name_vec, sibling_path, ManifestFiles,
};
use crate::lines::{
    content_bytes, copy_lines, joined_lines, lines_view, replace_first_equal,
    rewrite_matching_lines, set_matching_lines, set_or_insert_line,
};
use crate::manifest::{
    change_dep_ver, change_first_ver, change_replace, colon_version_quote, dep_bare_key,
    dep_path_line, dep_space_key, override_entry_key, override_key, override_path_line, quoted,
    set_dep_path, set_replace, version_bytes, version_line,
};

verus! {

/// One manifest document: ordered lines of bytes.
pub struct PackageManifest {
    pub lines: Vec<Vec<u8>>,
}

impl PackageManifest {
    /// A document made of the given lines.
    pub fn new(lines: Vec<Vec<u8>>) -> (r: PackageManifest)
        ensures
            r.lines == lines,
    {
        PackageManifest { lines }
    }

    /// The document rendered as bytes, each line followed by a newline.
    pub fn content(&self) -> (r: Vec<u8>)
        ensures
            r@ == joined_lines(lines_view(self.lines@)),
    {
        content_bytes(&self.lines)
    }
}

/// A package's manifest pair under mutation: the head and index variants,
/// the package's recorded name and version, and the canonical file path.
pub struct PackageManifests {
    /// The package's name.
    pub name: Vec<u8>,
    /// The package's version as recorded at workspace load; mutation of
    /// the documents never changes it.
    pub version: Version,
    /// The manifest as last recorded in history.
    pub head: PackageManifest,
    /// The manifest as currently on disk.
    pub index: PackageManifest,
    /// Path of the canonical manifest file.
    pub manifest_path: Vec<u8>,
}

impl PackageManifests {
    /// Creates new package manifests structure, containing the manifest
    /// pair together with the package's recorded name and version.
    pub fn new(
        name: Vec<u8>,
        version: Version,
        head: PackageManifest,
        index: PackageManifest,
        manifest_path: Vec<u8>,
    ) -> (r: PackageManifests)
        ensures
            r.name == name,
            r.version == version,
            r.head == head,
            r.index == index,
            r.manifest_path == manifest_path,
    {
        PackageManifests { name, version, head, index, manifest_path }
    }

    /// Bumps the package's own version field in both manifest variants:
    /// the first line `version = "<recorded>"` of each becomes the bumped
    /// version line.
    pub fn bump_ver(&mut self, bump: Bump)
        requires
            old(self).version.can_bump(bump),
        ensures
            lines_view(final(self).head.lines@) == replace_first_equal(
                lines_view(old(self).head.lines@),
                version_line(old(self).version),
                version_line(old(self).version.spec_bump(bump)),
            ),
            lines_view(final(self).index.lines@) == replace_first_equal(
                lines_view(old(self).index.lines@),
                version_line(old(self).version),
                version_line(old(self).version.spec_bump(bump)),
            ),
            final(self).name == old(self).name,
            final(self).version == old(self).version,
            final(self).manifest_path == old(self).manifest_path,
    {
        let v = self.version;
        let new_v = v.bump(bump);
        change_first_ver(&mut self.head.lines, &v, &new_v);
        change_first_ver(&mut self.index.lines, &v, &new_v);
    }

    /// Updates a dependency's version in both manifest variants: on every
    /// line starting with `<name> `, `"<old>"` becomes `"<new>"`.
    pub fn update_dep(&mut self, dep_name: &Vec<u8>, old_ver: &Version, new_ver: &Version)
        ensures
            lines_view(final(self).head.lines@) == rewrite_matching_lines(
                lines_view(old(self).head.lines@),
                dep_space_key(dep_name@),
                quoted(version_bytes(*old_ver)),
                quoted(version_bytes(*new_ver)),
            ),
            lines_view(final(self).index.lines@) == rewrite_matching_lines(
                lines_view(old(self).index.lines@),
                dep_space_key(dep_name@),
                quoted(version_bytes(*old_ver)),
                quoted(version_bytes(*new_ver)),
            ),
            final(self).name == old(self).name,
            final(self).version == old(self).version,
            final(self).manifest_path == old(self).manifest_path,
    {
        change_dep_ver(&mut self.head.lines, dep_name, old_ver, new_ver);
        change_dep_ver(&mut self.index.lines, dep_name, old_ver, new_ver);
    }

    /// Converts a dependency entry to carry both a local path and a
    /// version, in both manifest variants.
    pub fn set_dep_path(&mut self, dep_name: &Vec<u8>, path: &Vec<u8>, ver: &Version)
        ensures
            lines_view(final(self).head.lines@) == set_matching_lines(
                lines_view(old(self).head.lines@),
                dep_bare_key(dep_name@),
                dep_path_line(dep_name@, *ver, path@),
            ),
            lines_view(final(self).index.lines@) == set_matching_lines(
                lines_view(old(self).index.lines@),
                dep_bare_key(dep_name@),
                dep_path_line(dep_name@, *ver, path@),
            ),
            final(self).name == old(self).name,
            final(self).version == old(self).version,
            final(self).manifest_path == old(self).manifest_path,
    {
        set_dep_path(&mut self.head.lines, dep_name, path, ver);
        set_dep_path(&mut self.index.lines, dep_name, path, ver);
    }

    /// Creates a head preview path: the sibling of the canonical manifest.
    pub fn head_preview_path(&self) -> (r: Vec<u8>)
        ensures
            r@ == dir_prefix(self.manifest_path@) + preview_head_name(),
    {
        let name = preview_head_name_vec();
        sibling_path(&self.manifest_path, &name)
    }

    /// Creates an index preview path: the sibling of the canonical manifest.
    pub fn index_preview_path(&self) -> (r: Vec<u8>)
        ensures
            r@ == dir_prefix(self.manifest_path@) + preview_index_name(),
    {
        let name = preview_index_name_vec();
        sibling_path(&self.manifest_path, &name)
    }

    /// Saves both manifest variants to their preview files; the canonical
    /// file and any backup are untouched.
    pub fn save_preview(&self, files: &mut ManifestFiles)
        ensures
            final(files).preview_head is Some,
            lines_view(final(files).preview_head->Some_0@) == lines_view(self.head.lines@),
            final(files).preview_index is Some,
            lines_view(final(files).preview_index->Some_0@) == lines_view(self.index.lines@),
            final(files).canonical == old(files).canonical,
            final(files).backup == old(files).backup,
    {
        files.preview_head = Some(copy_lines(&self.head.lines));
        files.preview_index = Some(copy_lines(&self.index.lines));
    }
}

/// The workspace root's manifest pair under mutation.
pub struct WorkspaceManifests {
    /// The manifest as last recorded in history.
    pub head: WorkspaceManifest,
    /// The manifest as currently on disk.
    pub index: WorkspaceManifest,
    /// Path of the canonical workspace manifest file.
    pub manifest_path: Vec<u8>,
}

/// The workspace root's manifest document.
pub struct WorkspaceManifest {
    pub lines: Vec<Vec<u8>>,
}

impl WorkspaceManifest {
    /// A document made of the given lines.
    pub fn new(lines: Vec<Vec<u8>>) -> (r: WorkspaceManifest)
        ensures
            r.lines == lines,
    {
        WorkspaceManifest { lines }
    }

    /// The document rendered as bytes, each line followed by a newline.
    pub fn content(&self) -> (r: Vec<u8>)
        ensures
            r@ == joined_lines(lines_view(self.lines@)),
    {
        content_bytes(&self.lines)
    }
}

impl WorkspaceManifests {
    /// Creates new workspace manifests structure, containing the manifest
    /// pair and the canonical file path.
    pub fn new(head: WorkspaceManifest, index: WorkspaceManifest, manifest_path: Vec<u8>) -> (r:
        WorkspaceManifests)
        ensures
            r.head == head,
            r.index == index,
            r.manifest_path == manifest_path,
    {
        WorkspaceManifests { head, index, manifest_path }
    }

    /// Creates a head preview path: the sibling of the canonical manifest.
    pub fn head_preview_path(&self) -> (r: Vec<u8>)
        ensures
            r@ == dir_prefix(self.manifest_path@) + preview_head_name(),
    {
        let name = preview_head_name_vec();
        sibling_path(&self.manifest_path, &name)
    }

    /// Creates an index preview path: the sibling of the canonical manifest.
    pub fn index_preview_path(&self) -> (r: Vec<u8>)
        ensures
            r@ == dir_prefix(self.manifest_path@) + preview_index_name(),
    {
        let name = preview_index_name_vec();
        sibling_path(&self.manifest_path, &name)
    }

    /// Saves both manifest variants to their preview files; the canonical
    /// file and any backup are untouched.
    pub fn save_preview(&self, files: &mut ManifestFiles)
        ensures
            final(files).preview_head is Some,
            lines_view(final(files).preview_head->Some_0@) == lines_view(self.head.lines@),
            final(files).preview_index is Some,
            lines_view(final(files).preview_index->Some_0@) == lines_view(self.index.lines@),
            final(files).canonical == old(files).canonical,
            final(files).backup == old(files).backup,
    {
        files.preview_head = Some(copy_lines(&self.head.lines));
        files.preview_index = Some(copy_lines(&self.index.lines));
    }

    /// Bumps a package's version inside the workspace override section,
    /// in both manifest variants: on every line starting with
    /// `"<name>:<v>"`, the recorded version becomes the bumped one.
    pub fn bump_replace_ver(&mut self, pkg_name: &Vec<u8>, pkg_version: &Version, bump: Bump)
        requires
            pkg_version.can_bump(bump),
        ensures
            lines_view(final(self).head.lines@) == rewrite_matching_lines(
                lines_view(old(self).head.lines@),
                override_entry_key(pkg_name@, *pkg_version),
                colon_version_quote(*pkg_version),
                colon_version_quote(pkg_version.spec_bump(bump)),
            ),
            lines_view(final(self).index.lines@) == rewrite_matching_lines(
                lines_view(old(self).index.lines@),
                override_entry_key(pkg_name@, *pkg_version),
                colon_version_quote(*pkg_version),
                colon_version_quote(pkg_version.spec_bump(bump)),
            ),
            final(self).manifest_path == old(self).manifest_path,
    {
        let new_v = pkg_version.bump(bump);
        change_replace(&mut self.head.lines, pkg_name, pkg_version, &new_v);
        change_replace(&mut self.index.lines, pkg_name, pkg_version, &new_v);
    }

    /// Rewrites, or appends, the override entry linking a package version
    /// to a local path, in both manifest variants.
    pub fn set_replace(&mut self, pkg_name: &Vec<u8>, pkg_version: &Version, path: &Vec<u8>)
        ensures
            lines_view(final(self).head.lines@) == set_or_insert_line(
                lines_view(old(self).head.lines@),
                override_key(pkg_name@),
                override_path_line(pkg_name@, *pkg_version, path@),
            ),
            lines_view(final(self).index.lines@) == set_or_insert_line(
                lines_view(old(self).index.lines@),
                override_key(pkg_name@),
                override_path_line(pkg_name@, *pkg_version, path@),
            ),
            final(self).manifest_path == old(self).manifest_path,
    {
        set_replace(&mut self.head.lines, pkg_name, pkg_version, path);
        set_replace(&mut self.index.lines, pkg_name, pkg_version, path);
    }
}

impl PackageManifests {
    /// Rewrites a dependency entry whole, forcing its recorded version,
    /// path and flags, in both manifest variants.
    pub fn set_dep_force(
        &mut self,
        dep_name: &Vec<u8>,
        ver: &Version,
        path: Option<&Vec<u8>>,
        optional: bool,
        default_features: bool,
        features: &Vec<Vec<u8>>,
    )
        ensures
            lines_view(final(self).head.lines@) == crate::lines::set_matching_lines(
                lines_view(old(self).head.lines@),
                crate::manifest::dep_space_key(dep_name@),
                crate::manifest::dep_force_line(
                    dep_name@,
                    *ver,
                    match path {
                        Some(p) => Some(p@),
                        None => None,
                    },
                    optional,
                    default_features,
                    lines_view(features@),
                ),
            ),
            lines_view(final(self).index.lines@) == crate::lines::set_matching_lines(
                lines_view(old(self).index.lines@),
                crate::manifest::dep_space_key(dep_name@),
                crate::manifest::dep_force_line(
                    dep_name@,
                    *ver,
                    match path {
                        Some(p) => Some(p@),
                        None => None,
                    },
                    optional,
                    default_features,
                    lines_view(features@),
                ),
            ),
            final(self).name == old(self).name,
            final(self).version == old(self).version,
            final(self).manifest_path == old(self).manifest_path,
    {
        crate::manifest::set_dep_force(
            &mut self.head.lines,
            dep_name,
            ver,
            path,
            optional,
            default_features,
            features,
        );
        crate::manifest::set_dep_force(
            &mut self.index.lines,
            dep_name,
            ver,
            path,
            optional,
            default_features,
            features,
        );
    }
}

} // verus!
