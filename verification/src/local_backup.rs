//! Backing up to a local disk: where each file is written under the disk's
//! mountpoint, and whether the copy there is already the file.

use vstd::prelude::*;

use crate::config::LocalBackupConfig;
use crate::dropbox::same_hash;
use crate::mountable::{MountedFilesystem, MOUNTABLE_DEVICE_FOLDER};
use crate::paths::{join, join_chars, parent_chars, parent_of};
use crate::staging::{remote_path_text, UploadDescriptor};
use crate::text::{chars_of, string_of, sub_chars};

verus! {

/// A backup disk whose filesystem is mounted.
#[derive(Debug)]
pub struct MountedLocalBackup {
    pub local_backup: LocalBackupConfig,
    pub mount: MountedFilesystem,
}

/// Where a file described by `d` is written under the mountpoint `mount`:
/// its remote path, without the leading separator, under the program's folder.
pub open spec fn local_path_text(mount: Seq<char>, d: UploadDescriptor) -> Seq<char> {
    join(join(mount, "stokepile"@), remote_path_text(d).drop_first())
}

impl MountedLocalBackup {
    /// The backup disk `this` mounted as `mount`.
    pub fn from_mounted_parts(this: LocalBackupConfig, mount: MountedFilesystem) -> (m: MountedLocalBackup)
        ensures
            m.local_backup == this,
            m.mount == mount,
    {
        MountedLocalBackup { local_backup: this, mount }
    }

    /// Where the file described by `manifest` is written.
    pub fn local_path(&self, manifest: &UploadDescriptor) -> (p: String)
        ensures
            p@ == local_path_text(self.mount.mountpoint@, *manifest),
    {
        let mount = chars_of(self.mount.path());
        let folder = chars_of(MOUNTABLE_DEVICE_FOLDER);
        proof {
            reveal_strlit("stokepile");
        }
        let base = join_chars(&mount, &folder);
        let remote = chars_of(manifest.remote_path().as_str());
        let rest = sub_chars(&remote, 1, remote.len());
        proof {
            assert(rest@ =~= remote_path_text(*manifest).drop_first());
        }
        let joined = join_chars(&base, &rest);
        string_of(&joined)
    }

    /// The directory the file described by `manifest` is written in: the
    /// parent of its local path, which must have one (it has unless the
    /// descriptor's names are made of separators and dots alone).
    pub fn containing_dir(&self, manifest: &UploadDescriptor) -> (p: String)
        requires
            parent_of(local_path_text(self.mount.mountpoint@, *manifest)) is Some,
        ensures
            p@ == parent_of(local_path_text(self.mount.mountpoint@, *manifest))->0,
    {
        let local = self.local_path(manifest);
        let lc = chars_of(local.as_str());
        let parent = parent_chars(&lc).unwrap();
        string_of(&parent)
    }

    /// Whether the copy on the disk is already the file: it exists
    /// (`local_hash` is the content hash of the copy, if there is one) and its
    /// hash is the one recorded for the file.
    pub fn already_uploaded(&self, manifest: &UploadDescriptor, local_hash: Option<[u8; 32]>) -> (r: bool)
        ensures
            r == match local_hash {
                Some(h) => h@ == manifest.content_hash@,
                None => false,
            },
    {
        match local_hash {
            Some(h) => same_hash(&h, &manifest.content_hash),
            None => false,
        }
    }

    /// The name this backend is reported under.
    pub fn name(&self) -> (n: String)
        ensures
            n@ == "local backup"@,
    {
        let n = "local backup".to_owned();
        n
    }
}

} // verus!
