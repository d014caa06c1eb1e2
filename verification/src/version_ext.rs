use crate::iter_ext::{first_where, lemma_first_where_from};
use crate::platform::{ModrinthVersion, ModrinthVersionFile};
use vstd::prelude::*;

verus! {

/// The test whether a file is marked as primary.
pub open spec fn is_primary() -> spec_fn(ModrinthVersionFile) -> bool {
    |file: ModrinthVersionFile| file.primary
}

/// The place in `files` of the file to download: that of the primary file,
/// the first file's where none is marked as primary.
pub open spec fn version_file_index(files: Seq<ModrinthVersionFile>) -> int {
    match first_where(files, is_primary()) {
        Some(k) => k,
        None => 0,
    }
}

/// The file that a Modrinth version is downloaded as.
pub trait VersionExt {
    /// The file that stands for the version.
    spec fn version_file(&self) -> ModrinthVersionFile;

    /// Whether the version has a file at all.
    spec fn has_files(&self) -> bool;

    /// The primary file of the version, or its first file where none is
    /// marked as primary.
    fn get_version_file(&self) -> (file: &ModrinthVersionFile)
        requires
            self.has_files(),
        ensures
            *file == self.version_file(),
    ;

    /// The primary file of the version, or its first file where none is
    /// marked as primary.
    fn into_version_file(self) -> (file: ModrinthVersionFile)
        requires
            self.has_files(),
        ensures
            file == self.version_file(),
    ;
}

/// Finds the place that [`version_file_index`] names.
fn find_version_file(files: &Vec<ModrinthVersionFile>) -> (at: usize)
    requires
        files.len() > 0,
    ensures
        at == version_file_index(files@),
        at < files.len(),
{
    let mut i: usize = 0;
    while i < files.len()
        invariant
            i <= files.len(),
            forall|k: int| 0 <= k < i ==> !is_primary()(#[trigger] files@[k]),
        decreases files.len() - i,
    {
        if files[i].primary {
            proof {
                lemma_first_where_from(files@, is_primary(), i as int);
            }
            return i;
        }
        i += 1;
    }
    proof {
        lemma_first_where_from(files@, is_primary(), files.len() as int);
    }
    0
}

impl VersionExt for ModrinthVersion {
    open spec fn version_file(&self) -> ModrinthVersionFile {
        self.files@[version_file_index(self.files@)]
    }

    open spec fn has_files(&self) -> bool {
        self.files@.len() > 0
    }

    fn get_version_file(&self) -> (file: &ModrinthVersionFile) {
        let at = find_version_file(&self.files);
        &self.files[at]
    }

    fn into_version_file(self) -> (file: ModrinthVersionFile) {
        let mut files = self.files;
        let at = find_version_file(&files);
        files.swap_remove(at)
    }
}

} // verus!
