//! Mounted filesystems: where a labelled device appears, how the output of
//! `udisksctl mount` is read, and when a device counts as attached.

use vstd::prelude::*;

use crate::config::{LocationView, MountableDeviceLocation};
use crate::paths::{join, join_path};
use crate::text::copy_string;

verus! {

/// The folder, at the root of a mounted device, that holds what this program
/// writes to it.
pub const MOUNTABLE_DEVICE_FOLDER: &'static str = "stokepile";

/// The directory under which Linux lists filesystems by label.
pub const LABEL_DIRECTORY: &'static str = "/dev/disk/by-label";

/// The expression `udisksctl mount` output is read with; its second group is
/// the mountpoint.
pub const UDISKS_MOUNTED_PATTERN: &'static str = "^Mounted (.+) at (.+)\\.";

/// What `regex::Regex::captures` finds for `pattern` in `text`: the text of
/// capture group `group`, or nothing when the pattern does not match (or does
/// not compile) or the group took no part in the match.
pub uninterp spec fn regex_group(pattern: Seq<char>, text: Seq<char>, group: int) -> Option<Seq<char>>;

/// Builds a `regex::Regex` from `pattern` and calls `captures` on `text`,
/// returning the text of group `group`. Trusted to depend on its arguments
/// alone (named by `regex_group`); what the expression means is not stated.
#[verifier::external_body]
fn capture_group(pattern: &str, text: &str, group: usize) -> (r: Option<String>)
    ensures
        match r {
            Some(s) => regex_group(pattern@, text@, group as int) == Some(s@),
            None => regex_group(pattern@, text@, group as int) is None,
        },
{
    match regex::Regex::new(pattern) {
        Ok(re) => match re.captures(text) {
            Some(caps) => match caps.get(group) {
                Some(m) => Some(m.as_str().to_string()),
                None => None,
            },
            None => None,
        },
        Err(_) => None,
    }
}

/// A filesystem that was already mounted when the program found it; letting it
/// go does nothing.
#[derive(Debug, PartialEq, Eq)]
pub struct ExternallyMounted {}

/// A filesystem mounted with `udisksctl`; letting it go unmounts it.
#[derive(Debug, PartialEq, Eq)]
pub struct UdisksMounter {}

/// Who mounted a filesystem.
#[derive(Debug, PartialEq, Eq)]
pub enum Mounter {
    Externally(ExternallyMounted),
    Udisks(UdisksMounter),
}

/// A mounted filesystem: where it is mounted, the device behind it, and who
/// mounted it.
#[derive(Debug)]
pub struct MountedFilesystem {
    pub mountpoint: String,
    pub device: String,
    pub mounter: Mounter,
}

impl MountedFilesystem {
    /// A filesystem someone else mounted at `mountpoint`; the device behind it
    /// is not looked up.
    pub fn new_externally_mounted(mountpoint: String) -> (m: MountedFilesystem)
        ensures
            m.mountpoint == mountpoint,
            m.device@ == Seq::<char>::empty(),
            m.mounter == Mounter::Externally(ExternallyMounted {}),
    {
        MountedFilesystem { mountpoint, device: String::new(), mounter: Mounter::Externally(ExternallyMounted {}) }
    }

    /// Where the filesystem is mounted.
    pub fn path(&self) -> (p: &str)
        ensures
            p@ == self.mountpoint@,
    {
        self.mountpoint.as_str()
    }

    /// The device to unmount when this filesystem is let go: the device for a
    /// filesystem mounted with `udisksctl`, nothing for one mounted by someone
    /// else.
    pub fn device_to_unmount(&self) -> (d: Option<String>)
        ensures
            match self.mounter {
                Mounter::Udisks(_) => d is Some && d->0@ == self.device@,
                Mounter::Externally(_) => d is None,
            },
    {
        match self.mounter {
            Mounter::Udisks(_) => Some(copy_string(&self.device)),
            Mounter::Externally(_) => None,
        }
    }
}

/// The device node of the filesystem labelled `lbl`.
pub open spec fn label_device(lbl: Seq<char>) -> Seq<char> {
    join("/dev/disk/by-label"@, lbl)
}

/// The device node of the filesystem labelled `lbl`.
pub fn device_for_label(lbl: &str) -> (p: String)
    ensures
        p@ == label_device(lbl@),
{
    let p = join_path(LABEL_DIRECTORY, lbl);
    proof {
        reveal_strlit("/dev/disk/by-label");
    }
    p
}

/// The message a failed mount is reported with.
pub open spec fn mount_failure(stderr: Seq<char>) -> Seq<char> {
    "Failed to mount: "@ + stderr
}

impl UdisksMounter {
    /// Reads the outcome of `udisksctl mount -b DEVICE`: when the command
    /// succeeded and its output says where the device was mounted, the
    /// mounted filesystem; otherwise the failure, with the command's error
    /// output.
    pub fn mount(device: &str, success: bool, stdout: &str, stderr: &str) -> (r: Result<MountedFilesystem, String>)
        ensures
            match r {
                Ok(m) => success && regex_group(UDISKS_MOUNTED_PATTERN@, stdout@, 2) == Some(m.mountpoint@)
                    && m.device@ == device@ && m.mounter == Mounter::Udisks(UdisksMounter {}),
                Err(e) => (!success || regex_group(UDISKS_MOUNTED_PATTERN@, stdout@, 2) is None)
                    && e@ == mount_failure(stderr@),
            },
    {
        if success {
            match capture_group(UDISKS_MOUNTED_PATTERN, stdout, 2) {
                Some(mountpoint) => {
                    return Ok(
                        MountedFilesystem {
                            mountpoint,
                            device: device.to_owned(),
                            mounter: Mounter::Udisks(UdisksMounter {}),
                        },
                    );
                },
                None => {},
            }
        }
        let mut e = String::new();
        crate::text::push_str(&mut e, "Failed to mount: ");
        crate::text::push_str(&mut e, stderr);
        proof {
            reveal_strlit("Failed to mount: ");
        }
        Err(e)
    }
}

/// The path whose existence shows that a device is attached: the device node
/// for a labelled filesystem, the mountpoint itself otherwise.
pub open spec fn probe_path_of(loc: LocationView) -> Seq<char> {
    match loc {
        LocationView::Label(l) => label_device(l),
        LocationView::Mountpoint(p) => p,
    }
}

/// Whether a device counts as attached, given whether its probe path exists
/// and, for a mountpoint, how many entries the directory holds: a labelled
/// device when its node exists, a mountpoint when it exists and is not empty.
pub open spec fn attached(loc: LocationView, exists: bool, entries: nat) -> bool {
    match loc {
        LocationView::Label(_) => exists,
        LocationView::Mountpoint(_) => exists && entries > 0,
    }
}

impl MountableDeviceLocation {
    /// The path to look at to tell whether the device is attached.
    pub fn probe_path(&self) -> (p: String)
        ensures
            p@ == probe_path_of(self@),
    {
        match self {
            MountableDeviceLocation::Label(l) => device_for_label(l.as_str()),
            MountableDeviceLocation::Mountpoint(p) => copy_string(p),
        }
    }

    /// Whether the device is attached, given whether its probe path exists
    /// and how many entries it holds (only read for a mountpoint).
    pub fn is_attached(&self, exists: bool, entries: usize) -> (r: bool)
        ensures
            r == attached(self@, exists, entries as nat),
    {
        match self {
            MountableDeviceLocation::Label(_) => exists,
            MountableDeviceLocation::Mountpoint(_) => exists && entries > 0,
        }
    }

    /// The device node to mount for a labelled filesystem. Mounting a bare
    /// mountpoint is not supported.
    pub fn device_to_mount(&self) -> (d: String)
        requires
            self is Label,
        ensures
            d@ == label_device(self->Label_0@),
    {
        match self {
            MountableDeviceLocation::Label(l) => device_for_label(l.as_str()),
            MountableDeviceLocation::Mountpoint(_) => String::new(),
        }
    }
}

/// A device of `T`'s kind is kept only when attached.
pub fn get_attached<T>(device: T, attached: bool) -> (r: Option<T>)
    ensures
        r == (if attached { Some(device) } else { None::<T> }),
{
    if attached {
        Some(device)
    } else {
        None
    }
}

} // verus!
