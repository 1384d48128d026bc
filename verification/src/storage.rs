//! Where files are kept on this machine.

use vstd::prelude::*;
use std::path::PathBuf;

verus! {

#[verifier::external_type_specification]
#[verifier::external_body]
pub struct ExPathBuf(PathBuf);

/// A store of files under one directory.
pub struct LocalStorage {
    base_dir: PathBuf,
}

impl LocalStorage {
    /// The directory under which the files are kept.
    pub closed spec fn root(&self) -> PathBuf {
        self.base_dir
    }

    /// A store under `dir`.
    pub fn new(dir: PathBuf) -> (storage: LocalStorage)
        ensures
            storage.root() == dir,
    {
        LocalStorage { base_dir: dir }
    }

    /// The directory under which the files are kept.
    pub fn base_dir(&self) -> (dir: &PathBuf)
        ensures
            *dir == self.root(),
    {
        &self.base_dir
    }
}

} // verus!
