//! File access confined to the panel's working directories.

use vstd::prelude::*;
use crate::config::{DirKind, WorkingDirectoryConfig};
use crate::path::{
    join, join_spec, path_starts_with, starts_with_spec, has_root, lemma_join_stays_under_base,
    lemma_starts_with_itself,
};
use crate::text::{to_decimal, decimal};

verus! {

/// Why a file operation was refused.
#[derive(Debug, PartialEq, Eq, Structural)]
pub enum FileAccessError {
    /// The path lies outside every working directory.
    AccessDenied,
}

impl FileAccessError {
    /// The message that goes with the refusal.
    pub fn message(&self) -> (r: &'static str)
        ensures
            r@ == "Access denied"@,
    {
        "Access denied"
    }
}

/// One entry of a directory listing.
#[derive(Clone, Debug)]
pub struct FileInfo {
    pub name: String,
    pub path: String,
    pub is_dir: bool,
    pub size: u64,
    /// Seconds since the Unix epoch, in decimal.
    pub modified: String,
}

impl FileInfo {
    /// The listing entry for a file, with its modification time given in
    /// seconds since the Unix epoch.
    pub fn new(name: String, path: String, is_dir: bool, size: u64, modified_secs: u64) -> (r: Self)
        ensures
            r.name@ == name@,
            r.path@ == path@,
            r.is_dir == is_dir,
            r.size == size,
            r.modified@ == decimal(modified_secs as nat),
    {
        FileInfo { name, path, is_dir, size, modified: to_decimal(modified_secs) }
    }
}

/// Reads and writes files under the working directories.
pub struct FileManagerService {
    working_dirs: WorkingDirectoryConfig,
}

/// `path` lies under one of the working directories of `dirs`, by whole
/// path components.
pub open spec fn allowed_spec(dirs: WorkingDirectoryConfig, path: Seq<char>) -> bool {
    ||| starts_with_spec(path, dirs.base_dir@)
    ||| starts_with_spec(path, dirs.www_dir@)
    ||| starts_with_spec(path, dirs.logs_dir@)
    ||| starts_with_spec(path, dirs.config_dir@)
    ||| starts_with_spec(path, dirs.run_dir@)
}

/// What a path given relative to the base directory resolves to: the
/// joined path when it is allowed, a refusal otherwise.
pub open spec fn resolve_spec(dirs: WorkingDirectoryConfig, relative_path: Seq<char>) -> Result<
    Seq<char>,
    FileAccessError,
> {
    let p = join_spec(dirs.base_dir@, relative_path);
    if allowed_spec(dirs, p) {
        Ok(p)
    } else {
        Err(FileAccessError::AccessDenied)
    }
}

impl FileManagerService {
    /// The working directories this service is confined to.
    pub closed spec fn dirs_spec(&self) -> WorkingDirectoryConfig {
        self.working_dirs
    }

    /// A service confined to `working_dirs`.
    pub fn new(working_dirs: WorkingDirectoryConfig) -> (r: Self)
        ensures
            r.dirs_spec() == working_dirs,
    {
        Self { working_dirs }
    }

    /// The working directories this service is confined to.
    pub fn working_dirs(&self) -> (r: &WorkingDirectoryConfig)
        ensures
            *r == self.dirs_spec(),
    {
        &self.working_dirs
    }

    /// Whether `path` lies under the base, www, logs, config or run
    /// directory.
    pub fn is_path_allowed(&self, path: &str) -> (r: bool)
        ensures
            r == allowed_spec(self.dirs_spec(), path@),
    {
        path_starts_with(path, self.working_dirs.dir(DirKind::Base)) || path_starts_with(
            path,
            self.working_dirs.dir(DirKind::Www),
        ) || path_starts_with(path, self.working_dirs.dir(DirKind::Logs)) || path_starts_with(
            path,
            self.working_dirs.dir(DirKind::Config),
        ) || path_starts_with(path, self.working_dirs.dir(DirKind::Run))
    }

    /// The path that `relative_path` names under the base directory,
    /// or `AccessDenied` when it falls outside every working directory.
    /// Every file operation of the panel goes through this check first.
    pub fn resolve(&self, relative_path: &str) -> (r: Result<String, FileAccessError>)
        ensures
            match r {
                Ok(p) => resolve_spec(self.dirs_spec(), relative_path@) == Ok::<
                    Seq<char>,
                    FileAccessError,
                >(p@),
                Err(e) => resolve_spec(self.dirs_spec(), relative_path@) == Err::<
                    Seq<char>,
                    FileAccessError,
                >(e),
            },
    {
        let p = join(self.working_dirs.base_dir.as_str(), relative_path);
        if self.is_path_allowed(p.as_str()) {
            Ok(p)
        } else {
            Err(FileAccessError::AccessDenied)
        }
    }
}

/// A relative path always resolves, to a path under the base directory;
/// only an absolute path can be refused, and it is refused exactly when
/// it lies under none of the working directories.
pub proof fn lemma_relative_paths_resolve(dirs: WorkingDirectoryConfig, relative_path: Seq<char>)
    ensures
        !has_root(relative_path) ==> resolve_spec(dirs, relative_path) == Ok::<
            Seq<char>,
            FileAccessError,
        >(join_spec(dirs.base_dir@, relative_path)),
        has_root(relative_path) ==> (resolve_spec(dirs, relative_path) is Err <==> !allowed_spec(
            dirs,
            relative_path,
        )),
{
    lemma_join_stays_under_base(dirs.base_dir@, relative_path);
}


/// Each working directory is itself an allowed path.
pub proof fn lemma_working_dirs_allowed(dirs: WorkingDirectoryConfig, kind: DirKind)
    ensures
        allowed_spec(dirs, dirs.dir_spec(kind)),
{
    lemma_starts_with_itself(dirs.dir_spec(kind));
}


/// A path is allowed exactly when its components start with those of at
/// least one working directory: anything inside any of the five
/// directories (the directory itself included) is allowed, and nothing
/// else is.
pub proof fn lemma_allowed_iff_under_some_dir(dirs: WorkingDirectoryConfig, path: Seq<char>)
    ensures
        forall|k: DirKind| #[trigger] starts_with_spec(path, dirs.dir_spec(k)) ==> allowed_spec(
            dirs,
            path,
        ),
        allowed_spec(dirs, path) ==> exists|k: DirKind| #[trigger] starts_with_spec(
            path,
            dirs.dir_spec(k),
        ),
{
    if allowed_spec(dirs, path) {
        if starts_with_spec(path, dirs.dir_spec(DirKind::Base)) {
        } else if starts_with_spec(path, dirs.dir_spec(DirKind::Www)) {
        } else if starts_with_spec(path, dirs.dir_spec(DirKind::Logs)) {
        } else if starts_with_spec(path, dirs.dir_spec(DirKind::Config)) {
        } else {
            assert(starts_with_spec(path, dirs.dir_spec(DirKind::Run)));
        }
    }
}

/// An absolute path under any working directory resolves to itself; one
/// under none of them is refused.
pub proof fn lemma_absolute_paths_under_dirs_resolve(
    dirs: WorkingDirectoryConfig,
    path: Seq<char>,
    kind: DirKind,
)
    requires
        has_root(path),
    ensures
        starts_with_spec(path, dirs.dir_spec(kind)) ==> resolve_spec(dirs, path) == Ok::<
            Seq<char>,
            FileAccessError,
        >(path),
        (forall|k: DirKind| !#[trigger] starts_with_spec(path, dirs.dir_spec(k))) ==> resolve_spec(
            dirs,
            path,
        ) == Err::<Seq<char>, FileAccessError>(FileAccessError::AccessDenied),
{
    lemma_allowed_iff_under_some_dir(dirs, path);
}

} // verus!
