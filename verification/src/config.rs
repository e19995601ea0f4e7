//! Configuration of the blobman framework.
//!
//! The user-level configuration names the storage areas blobs can live in.
//! Reading and writing the configuration file is the surrounding shell's
//! work; choosing and validating a storage area from it is decided here.

use vstd::prelude::*;

use crate::errors::Error;
use crate::notify::{NotificationBackend, NotificationKind};
use crate::storage::FilesystemStorage;

verus! {

/// A location where blobs can be stored.
#[derive(Debug)]
pub enum StorageLocation {
    /// An absolute path on the filesystem.
    Filesystem(String),
    /// A filesystem path relative to the user's personal cache directory.
    UserCache(String),
}

/// The mathematical shape of a storage location.
#[verifier::ext_equal]
pub enum StorageLocationV {
    /// An absolute path on the filesystem.
    Filesystem(Seq<char>),
    /// A path relative to the user's personal cache directory.
    UserCache(Seq<char>),
}

impl View for StorageLocation {
    type V = StorageLocationV;

    open spec fn view(&self) -> StorageLocationV {
        match self {
            StorageLocation::Filesystem(p) => StorageLocationV::Filesystem(p@),
            StorageLocation::UserCache(p) => StorageLocationV::UserCache(p@),
        }
    }
}

/// Information about a storage area that blobman can use.
#[derive(Debug)]
pub struct StorageInfo {
    location: StorageLocation,
}

impl View for StorageInfo {
    type V = StorageLocationV;

    closed spec fn view(&self) -> StorageLocationV {
        self.location@
    }
}

impl StorageInfo {
    /// Describe a storage area at the given location.
    pub fn new(location: StorageLocation) -> (r: StorageInfo)
        ensures
            r@ == location@,
    {
        StorageInfo { location }
    }

    /// Open a storage backend based on the configured information.
    ///
    /// A filesystem location must be an absolute path; a relative one is
    /// rejected. A user-cache location is rooted at `user_cache_dir`, the
    /// cache directory that the surrounding shell resolved for this
    /// subdirectory of the user's cache; where the shell could resolve
    /// none, the error it reported is returned.
    pub fn open(&self, user_cache_dir: Result<&str, &Error>) -> (r: Result<
        FilesystemStorage,
        Error,
    >)
        ensures
            match self@ {
                StorageLocationV::Filesystem(p) => {
                    if p.len() > 0 && p[0] == '/' {
                        r matches Ok(st) && st@ == p
                    } else {
                        r matches Err(e) && (e matches Error::StorageNotAbsolute(q) && q@ == p)
                    }
                },
                StorageLocationV::UserCache(_) => match user_cache_dir {
                    Ok(d) => r matches Ok(st) && st@ == d@,
                    Err(e) => r == Err::<FilesystemStorage, Error>(*e),
                },
            },
    {
        match &self.location {
            StorageLocation::Filesystem(prefix) => {
                let s = prefix.as_str();
                if s.unicode_len() > 0 && s.get_char(0) == '/' {
                    Ok(FilesystemStorage::new(s))
                } else {
                    Err(Error::StorageNotAbsolute(prefix.clone()))
                }
            },
            StorageLocation::UserCache(_subdir) => match user_cache_dir {
                Ok(d) => Ok(FilesystemStorage::new(d)),
                Err(e) => Err(e.clone()),
            },
        }
    }

    /// The cache subdirectory this storage area asks for, where it is a
    /// user-cache location.
    pub fn cache_subdir(&self) -> (r: Option<&str>)
        ensures
            match self@ {
                StorageLocationV::UserCache(p) => r matches Some(s) && s@ == p,
                StorageLocationV::Filesystem(_) => r is None,
            },
    {
        match &self.location {
            StorageLocation::UserCache(subdir) => Some(subdir.as_str()),
            StorageLocation::Filesystem(_) => None,
        }
    }
}

/// Deserialized user-level configuration information.
#[derive(Debug)]
pub struct UserConfig {
    storage: Vec<StorageInfo>,
}

impl View for UserConfig {
    type V = Seq<StorageLocationV>;

    closed spec fn view(&self) -> Seq<StorageLocationV> {
        self.storage@.map_values(|s: StorageInfo| s@)
    }
}

impl UserConfig {
    /// Assemble a configuration from its storage areas.
    pub fn new(storage: Vec<StorageInfo>) -> (r: UserConfig)
        ensures
            r@ == storage@.map_values(|s: StorageInfo| s@),
    {
        UserConfig { storage }
    }

    /// How many storage areas are configured.
    pub fn storage_len(&self) -> (r: usize)
        ensures
            r == self@.len(),
    {
        self.storage.len()
    }

    /// Get a storage backend.
    ///
    /// The first configured storage area is used. With none configured
    /// this is an error; with more than one, the others are ignored and a
    /// warning goes to the observer.
    pub fn get_storage<B: NotificationBackend>(&self, nbe: &mut B) -> (r: Result<
        &StorageInfo,
        Error,
    >)
        ensures
            self@.len() == 0 ==> r == Err::<&StorageInfo, Error>(Error::NoStorageConfigured),
            self@.len() > 0 ==> (r matches Ok(si) && si@ == self@[0]),
    {
        if self.storage.len() == 0 {
            return Err(Error::NoStorageConfigured);
        }
        if self.storage.len() > 1 {
            nbe.notify(
                NotificationKind::Warning,
                "only the first configured storage area is used",
                None,
            );
        }
        Ok(&self.storage[0])
    }
}

impl Default for UserConfig {
    /// The built-in default configuration: one storage area in the
    /// "blobman" subdirectory of the user's cache.
    fn default() -> (r: UserConfig)
        ensures
            r@ =~= seq![StorageLocationV::UserCache("blobman"@)],
    {
        let mut storage: Vec<StorageInfo> = Vec::new();
        storage.push(StorageInfo { location: StorageLocation::UserCache("blobman".to_owned()) });
        UserConfig { storage }
    }
}

} // verus!
