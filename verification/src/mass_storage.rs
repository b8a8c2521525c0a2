//! Mass storage devices: which of the files found on a mounted card are
//! staged, which are cleaned up afterwards, and how a staged file is filed.

use vstd::prelude::*;

use crate::config::{strings_view, MassStorageConfig};
use crate::mountable::MountedFilesystem;
use crate::paths::{extension_chars, extension_of, file_name, file_name_chars, parent_chars, parent_of};
use crate::staging::{LocalDateTime, RemotePathDescriptor};
use crate::text::{chars_of, chars_start_with, copy_string, starts_with};

verus! {

/// The directory macOS keeps deleted files in; nothing under it is staged.
pub const TRASH_DIRECTORY: &'static str = ".Trashes";

/// What `str::to_lowercase` makes of a string.
pub uninterp spec fn lowercase_text(s: Seq<char>) -> Seq<char>;

/// Calls `str::to_lowercase`. Trusted to depend on the text alone (named by
/// `lowercase_text`); Unicode's case mapping is not stated.
#[verifier::external_body]
fn lowercase(s: &str) -> (r: String)
    ensures
        r@ == lowercase_text(s@),
{
    s.to_lowercase()
}

/// An entry met while walking a mounted card: a path found (and whether it is
/// a directory), or one that could not be read (with its path when known).
#[derive(Debug)]
pub enum WalkEntry {
    Found { path: String, is_dir: bool },
    Failed { failed_path: Option<String> },
}

/// Whether a failed entry is one the walk passes over: its path ends in the
/// `.Trashes` directory. (Any other failure stops the walk.)
pub open spec fn skippable_failure(e: WalkEntry) -> bool {
    match e {
        WalkEntry::Failed { failed_path } => failed_path is Some && file_name(failed_path->0@) == Some(".Trashes"@),
        WalkEntry::Found { .. } => true,
    }
}

/// Whether `p` or one of its ancestors is named `.Trashes`.
pub open spec fn under_trash(p: Seq<char>) -> bool
    decreases p.len(),
{
    if file_name(p) == Some(".Trashes"@) {
        true
    } else {
        match parent_of(p) {
            Some(q) => if q.len() < p.len() {
                under_trash(q)
            } else {
                false
            },
            None => false,
        }
    }
}

/// Whether the file at `p` is wanted for `extensions`: its extension,
/// lowercased, is one of them, its name does not start with `._`, and it is
/// not under `.Trashes`.
pub open spec fn wanted(p: Seq<char>, extensions: Seq<Seq<char>>) -> bool {
    match file_name(p) {
        None => false,
        Some(n) => match extension_of(n) {
            None => false,
            Some(e) => extensions.contains(lowercase_text(e)) && !starts_with(n, "._"@) && !under_trash(p),
        },
    }
}

/// The paths of the wanted files among the walked entries, in walk order.
pub open spec fn matching_paths(es: Seq<WalkEntry>, extensions: Seq<Seq<char>>) -> Seq<Seq<char>>
    decreases es.len(),
{
    if es.len() == 0 {
        Seq::empty()
    } else {
        matching_paths(es.drop_last(), extensions) + match es.last() {
            WalkEntry::Found { path, is_dir } => if !is_dir && wanted(path@, extensions) {
                seq![path@]
            } else {
                Seq::empty()
            },
            WalkEntry::Failed { .. } => Seq::empty(),
        }
    }
}

/// Whether two character sequences are the same.
fn same_chars(a: &Vec<char>, b: &Vec<char>) -> (r: bool)
    ensures
        r == (a@ == b@),
{
    if a.len() != b.len() {
        return false;
    }
    let mut i: usize = 0;
    while i < a.len()
        invariant
            a.len() == b.len(),
            i <= a.len(),
            forall|j: int| 0 <= j < i ==> a@[j] == b@[j],
        decreases a.len() - i,
    {
        if a[i] != b[i] {
            return false;
        }
        i = i + 1;
    }
    assert(a@ =~= b@);
    true
}

/// Whether the path `p` or one of its ancestors is named `.Trashes`.
pub fn is_under_trash(p: &str) -> (r: bool)
    ensures
        r == under_trash(p@),
{
    let trash = chars_of(TRASH_DIRECTORY);
    proof {
        reveal_strlit(".Trashes");
    }
    let mut cur = chars_of(p);
    loop
        invariant
            trash@ == ".Trashes"@,
            under_trash(p@) == under_trash(cur@),
        decreases cur.len(),
    {
        match file_name_chars(&cur) {
            Some(n) => {
                if same_chars(&n, &trash) {
                    return true;
                }
            },
            None => {},
        }
        match parent_chars(&cur) {
            Some(q) => {
                if q.len() < cur.len() {
                    cur = q;
                } else {
                    return false;
                }
            },
            None => {
                return false;
            },
        }
    }
}

/// Whether `s` is one of `list`.
fn listed(list: &Vec<String>, s: &String) -> (r: bool)
    ensures
        r == strings_view(list@).contains(s@),
{
    let target = chars_of(s.as_str());
    let mut i: usize = 0;
    while i < list.len()
        invariant
            target@ == s@,
            i <= list.len(),
            forall|j: int| 0 <= j < i ==> list@[j]@ != s@,
        decreases list.len() - i,
    {
        let c = chars_of(list[i].as_str());
        if same_chars(&c, &target) {
            assert(strings_view(list@)[i as int] == s@);
            return true;
        }
        i = i + 1;
    }
    proof {
        if strings_view(list@).contains(s@) {
            let k = choose|k: int| 0 <= k < strings_view(list@).len() && strings_view(list@)[k] == s@;
            assert(list@[k]@ == s@);
        }
    }
    false
}

/// Whether the file at `path` is wanted for `extensions`.
pub fn is_wanted(path: &str, extensions: &Vec<String>) -> (r: bool)
    ensures
        r == wanted(path@, strings_view(extensions@)),
{
    let p = chars_of(path);
    let name = match file_name_chars(&p) {
        Some(n) => n,
        None => {
            return false;
        },
    };
    let ext = match extension_chars(&name) {
        Some(e) => e,
        None => {
            return false;
        },
    };
    let ext_text = crate::text::string_of(&ext);
    let lower = lowercase(ext_text.as_str());
    if !listed(extensions, &lower) {
        return false;
    }
    let prefix = chars_of("._");
    proof {
        reveal_strlit("._");
    }
    if chars_start_with(&name, &prefix) {
        return false;
    }
    !is_under_trash(path)
}

/// The paths of the wanted files among the walked entries, in walk order.
/// Directories are passed over, and so are entries that failed under
/// `.Trashes`.
pub fn map_files_with_extensions(entries: &Vec<WalkEntry>, extensions: &Vec<String>) -> (out: Vec<String>)
    requires
        forall|i: int| 0 <= i < entries@.len() ==> skippable_failure(#[trigger] entries@[i]),
    ensures
        strings_view(out@) == matching_paths(entries@, strings_view(extensions@)),
{
    let mut out: Vec<String> = Vec::new();
    let mut i: usize = 0;
    while i < entries.len()
        invariant
            i <= entries.len(),
            strings_view(out@) == matching_paths(entries@.take(i as int), strings_view(extensions@)),
        decreases entries.len() - i,
    {
        proof {
            assert(entries@.take(i + 1).drop_last() =~= entries@.take(i as int));
            assert(entries@.take(i + 1).last() == entries@[i as int]);
        }
        let ghost before = out@;
        match &entries[i] {
            WalkEntry::Found { path, is_dir } => {
                if !*is_dir && is_wanted(path.as_str(), extensions) {
                    out.push(copy_string(path));
                }
            },
            WalkEntry::Failed { .. } => {},
        }
        i = i + 1;
        proof {
            assert(strings_view(out@) =~= matching_paths(entries@.take(i as int), strings_view(extensions@)));
        }
    }
    assert(entries@.take(entries.len() as int) =~= entries@);
    out
}

/// A file on a mass storage device to stage: when it was last modified, its
/// extension (lowercased), and where it is.
#[derive(Debug)]
pub struct MassStorageFile {
    pub capturedatetime: LocalDateTime,
    pub extension: String,
    pub source_path: String,
}

impl MassStorageFile {
    /// The file at `path`, last modified at `modified`.
    pub fn from_path(path: &str, modified: LocalDateTime) -> (f: MassStorageFile)
        requires
            file_name(path@) is Some,
            extension_of(file_name(path@)->0) is Some,
        ensures
            f.capturedatetime == modified,
            f.extension@ == lowercase_text(extension_of(file_name(path@)->0)->0),
            f.source_path@ == path@,
    {
        let p = chars_of(path);
        let name = file_name_chars(&p).unwrap();
        let ext = extension_chars(&name).unwrap();
        let ext_text = crate::text::string_of(&ext);
        MassStorageFile {
            capturedatetime: modified,
            extension: lowercase(ext_text.as_str()),
            source_path: path.to_owned(),
        }
    }

    /// The extension the file is staged with.
    pub fn extension(&self) -> (e: &str)
        ensures
            e@ == self.extension@,
    {
        self.extension.as_str()
    }

    /// Where the file is filed upstream: by its capture time, with its
    /// extension.
    pub fn remote_path(&self) -> (r: RemotePathDescriptor)
        ensures
            r matches RemotePathDescriptor::DateTime { capture_time, extension }
                && capture_time == self.capturedatetime && extension@ == self.extension@,
    {
        RemotePathDescriptor::DateTime { capture_time: self.capturedatetime, extension: copy_string(&self.extension) }
    }

    /// When the file was captured (its modification time).
    pub fn capture_datetime(&self) -> (t: LocalDateTime)
        ensures
            t == self.capturedatetime,
    {
        self.capturedatetime
    }
}

/// A mass storage device whose filesystem is mounted.
#[derive(Debug)]
pub struct MountedMassStorage {
    pub mass_storage: MassStorageConfig,
    pub mount: MountedFilesystem,
}

impl MountedMassStorage {
    /// The device `this` mounted as `mount`.
    pub fn from_mounted_parts(this: MassStorageConfig, mount: MountedFilesystem) -> (m: MountedMassStorage)
        ensures
            m.mass_storage == this,
            m.mount == mount,
    {
        MountedMassStorage { mass_storage: this, mount }
    }

    /// The paths of the files to stage: those with one of the device's
    /// extensions.
    pub fn files_matching_extensions(&self, entries: &Vec<WalkEntry>) -> (out: Vec<String>)
        requires
            forall|i: int| 0 <= i < entries@.len() ==> skippable_failure(#[trigger] entries@[i]),
        ensures
            strings_view(out@) == matching_paths(entries@, strings_view(self.mass_storage.extensions@)),
    {
        map_files_with_extensions(entries, &self.mass_storage.extensions)
    }

    /// The paths of the files to remove once staging is done: those with one
    /// of the device's cleanup extensions, none when it has no such list.
    pub fn files_matching_cleanup_extensions(&self, entries: &Vec<WalkEntry>) -> (out: Vec<String>)
        requires
            forall|i: int| 0 <= i < entries@.len() ==> skippable_failure(#[trigger] entries@[i]),
        ensures
            strings_view(out@) == match self.mass_storage.cleanup_extensions {
                Some(x) => matching_paths(entries@, strings_view(x@)),
                None => Seq::empty(),
            },
    {
        match &self.mass_storage.cleanup_extensions {
            Some(x) => map_files_with_extensions(entries, x),
            None => {
                let out: Vec<String> = Vec::new();
                assert(strings_view(out@) =~= Seq::<Seq<char>>::empty());
                out
            },
        }
    }
}

} // verus!
