//! The staging area: the descriptor a file is staged with, where staged files
//! live under the staging mount, which of its entries are manifests, and
//! whether the source is removed once a file is staged.

use vstd::prelude::*;

use crate::config::{MountableDeviceLocation, StagingConfig};
use crate::mountable::{MountedFilesystem, MOUNTABLE_DEVICE_FOLDER};
use crate::paths::{
    file_name, is_absolute, is_absolute_exec, join, join_chars, last_segment, last_sep_end, lemma_last_sep_end_append,
    parent_of, trim_trailing,
};
use crate::staging::{
    content_path_from_manifest, content_path_text, is_manifest, is_manifest_path, is_random_uuid, new_v4_uuid,
    MediaTransform, RemotePathDescriptor, UploadDescriptor,
};
use crate::text::{chars_of, copy_string, digit_char, digit_of, ends_with, push_str, string_of};

verus! {

/// The descriptor a file is staged with before its content is copied: filed
/// at `path`, from the device named `device_name`, `size` bytes long, with no
/// hash recorded yet, a fresh random uuid and no transforms.
pub fn descriptor_for(path: RemotePathDescriptor, device_name: &str, size: u64) -> (d: UploadDescriptor)
    ensures
        d.path == path,
        d.device_name@ == device_name@,
        d.size == size,
        forall|i: int| 0 <= i < 32 ==> #[trigger] d.content_hash@[i] == 0u8,
        is_random_uuid(d.uuid),
        d.transforms@ == Seq::<MediaTransform>::empty(),
{
    UploadDescriptor {
        path,
        device_name: device_name.to_owned(),
        content_hash: [0u8; 32],
        size,
        uuid: new_v4_uuid(),
        transforms: Vec::new(),
    }
}

/// Records what copying a file into the staging area produced: its content
/// hash. The copy must be as long as the descriptor says.
pub fn record_staged(desc: &mut UploadDescriptor, copied: u64, hash: [u8; 32])
    requires
        copied == old(desc).size,
    ensures
        final(desc).content_hash == hash,
        final(desc).path == old(desc).path,
        final(desc).device_name == old(desc).device_name,
        final(desc).size == old(desc).size,
        final(desc).uuid == old(desc).uuid,
        final(desc).transforms == old(desc).transforms,
{
    desc.content_hash = hash;
}

/// `16` to the power `k`.
pub open spec fn pow16(k: nat) -> nat
    decreases k,
{
    if k == 0 {
        1
    } else {
        16 * pow16((k - 1) as nat)
    }
}

/// The lowercase hexadecimal digit for a value below sixteen.
pub open spec fn hex_char(d: nat) -> char {
    if d < 10 {
        digit_char(d)
    } else if d == 10 {
        'a'
    } else if d == 11 {
        'b'
    } else if d == 12 {
        'c'
    } else if d == 13 {
        'd'
    } else if d == 14 {
        'e'
    } else {
        'f'
    }
}

/// A uuid as 32 lowercase hexadecimal digits, most significant first.
pub open spec fn uuid_hex(u: u128) -> Seq<char> {
    Seq::new(32, |i: int| hex_char(((u as nat) / pow16((31 - i) as nat)) % 16))
}

/// The extension a file is filed upstream with.
pub open spec fn remote_extension(p: RemotePathDescriptor) -> Seq<char> {
    match p {
        RemotePathDescriptor::DateTime { extension, .. } => extension@,
        RemotePathDescriptor::DateName { extension, .. } => extension@,
        RemotePathDescriptor::SpecifiedPath { extension, .. } => extension@,
    }
}

/// The name a file is staged under: its uuid in hexadecimal, with its
/// extension.
pub open spec fn staging_name_text(d: UploadDescriptor) -> Seq<char> {
    uuid_hex(d.uuid) + seq!['.'] + remote_extension(d.path)
}

/// The name of the manifest staged beside it.
pub open spec fn manifest_name_text(d: UploadDescriptor) -> Seq<char> {
    staging_name_text(d) + ".manifest"@
}

proof fn lemma_pow16_step(k: nat)
    ensures
        pow16(k + 1) / 16 == pow16(k),
        pow16(k) > 0,
    decreases k,
{
    if k > 0 {
        lemma_pow16_step((k - 1) as nat);
    }
    let x = pow16(k);
    assert((16 * x) / 16 == x) by (nonlinear_arith);
}

fn hex_digit(d: u128) -> (c: char)
    requires
        d < 16,
    ensures
        c == hex_char(d as nat),
{
    if d < 10 {
        digit_of(d as u64)
    } else if d == 10 {
        'a'
    } else if d == 11 {
        'b'
    } else if d == 12 {
        'c'
    } else if d == 13 {
        'd'
    } else if d == 14 {
        'e'
    } else {
        'f'
    }
}

/// A uuid as 32 lowercase hexadecimal digits.
pub fn uuid_text(u: u128) -> (s: String)
    ensures
        s@ == uuid_hex(u),
{
    let mut s = String::new();
    let mut p: u128 = 0x1000_0000_0000_0000_0000_0000_0000_0000;
    proof {
        reveal_with_fuel(pow16, 32);
        assert(pow16(31) == 0x1000_0000_0000_0000_0000_0000_0000_0000);
    }
    let mut i: usize = 0;
    while i < 32
        invariant
            i <= 32,
            i < 32 ==> p == pow16((31 - i) as nat),
            s@ == uuid_hex(u).take(i as int),
        decreases 32 - i,
    {
        proof {
            lemma_pow16_step((31 - i) as nat);
        }
        let d = (u / p) % 16;
        s.push(hex_digit(d));
        proof {
            assert(s@ =~= uuid_hex(u).take(i + 1));
        }
        if i < 31 {
            proof {
                lemma_pow16_step((30 - i) as nat);
            }
            p = p / 16;
        }
        i = i + 1;
    }
    assert(uuid_hex(u).take(32) =~= uuid_hex(u));
    s
}

/// The name the file described by `d` is staged under.
pub fn staging_name(d: &UploadDescriptor) -> (s: String)
    ensures
        s@ == staging_name_text(*d),
{
    let mut s = uuid_text(d.uuid);
    s.push('.');
    let ext = match &d.path {
        RemotePathDescriptor::DateTime { extension, .. } => extension,
        RemotePathDescriptor::DateName { extension, .. } => extension,
        RemotePathDescriptor::SpecifiedPath { extension, .. } => extension,
    };
    push_str(&mut s, ext.as_str());
    s
}

/// The name the manifest of the file described by `d` is staged under.
pub fn manifest_name(d: &UploadDescriptor) -> (s: String)
    ensures
        s@ == manifest_name_text(*d),
{
    let mut s = staging_name(d);
    push_str(&mut s, ".manifest");
    s
}

/// Copies files into a staging location, removing each source once it is
/// staged when destructive.
#[derive(Debug, PartialEq, Eq)]
pub struct Stager<T> {
    pub location: T,
    pub destructive: bool,
}

impl<T> Stager<T> {
    /// A stager that removes each source once it is staged.
    pub fn destructive(location: T) -> (s: Stager<T>)
        ensures
            s.location == location,
            s.destructive,
    {
        Stager { location, destructive: true }
    }

    /// A stager that leaves the sources in place.
    pub fn preserving(location: T) -> (s: Stager<T>)
        ensures
            s.location == location,
            !s.destructive,
    {
        Stager { location, destructive: false }
    }

    /// Whether a source is removed once it has been staged.
    pub fn removes_sources(&self) -> (r: bool)
        ensures
            r == self.destructive,
    {
        self.destructive
    }

    /// Where files are staged.
    pub fn staging_location(&self) -> (l: &T)
        ensures
            *l == self.location,
    {
        &self.location
    }

    /// The staging location, giving up the stager.
    pub fn into_inner(self) -> (l: T)
        ensures
            l == self.location,
    {
        self.location
    }
}

/// A staging device that has not been mounted yet.
#[derive(Debug, PartialEq, Eq)]
pub struct StagingDevice {
    pub location: MountableDeviceLocation,
}

impl StagingDevice {
    /// The staging device found at `location`.
    pub fn new(location: MountableDeviceLocation) -> (d: StagingDevice)
        ensures
            d.location == location,
    {
        StagingDevice { location }
    }
}

/// The staging area, mounted.
#[derive(Debug)]
pub struct MountedStaging {
    pub staging: StagingConfig,
    pub mount: MountedFilesystem,
}

/// The directory staged files live in under the mountpoint `mount`.
pub open spec fn staging_dir_text(mount: Seq<char>) -> Seq<char> {
    join(mount, "stokepile"@)
}

/// A staged file's content path and the path of its manifest.
#[derive(Debug, PartialEq, Eq)]
pub struct StagedPaths {
    pub content_path: String,
    pub manifest_path: String,
}

/// The content and manifest paths of the manifests among `paths`, in order.
pub open spec fn staged_paths_text(paths: Seq<Seq<char>>) -> Seq<(Seq<char>, Seq<char>)>
    decreases paths.len(),
{
    if paths.len() == 0 {
        Seq::empty()
    } else {
        let p = paths.last();
        staged_paths_text(paths.drop_last()) + if is_manifest_path(p) {
            seq![(content_path_text(p), p)]
        } else {
            Seq::empty()
        }
    }
}

/// The text of each path.
pub open spec fn texts(v: Seq<String>) -> Seq<Seq<char>> {
    v.map_values(|s: String| s@)
}

/// The text of each pair of staged paths.
pub open spec fn staged_texts(v: Seq<StagedPaths>) -> Seq<(Seq<char>, Seq<char>)> {
    v.map_values(|s: StagedPaths| (s.content_path@, s.manifest_path@))
}

proof fn lemma_last_sep_end_le(p: Seq<char>)
    ensures
        last_sep_end(p) <= p.len(),
    decreases p.len(),
{
    if p.len() > 0 {
        lemma_last_sep_end_le(p.drop_last());
    }
}

proof fn lemma_no_sep_after(p: Seq<char>, k: int)
    requires
        0 <= k <= p.len(),
        forall|i: int| k <= i < p.len() ==> p[i] != '/',
    ensures
        last_sep_end(p) <= k,
    decreases p.len(),
{
    if p.len() > k {
        assert(p.last() != '/');
        lemma_no_sep_after(p.drop_last(), k);
    } else {
        lemma_last_sep_end_le(p);
    }
}

/// A path that ends in `.manifest` has a file name ending in `.manifest`.
proof fn lemma_manifest_name(p: Seq<char>)
    requires
        is_manifest_path(p),
    ensures
        file_name(p) is Some,
        ends_with(file_name(p)->0, ".manifest"@),
{
    reveal_strlit(".manifest");
    let n = p.len();
    assert(p.subrange(n - 9, n as int) == ".manifest"@);
    assert(p.subrange(n - 9, n as int)[8] == 't');
    assert(p.last() == 't');
    assert(trim_trailing(p) == p);
    assert forall|i: int| n - 9 <= i < n implies p[i] != '/' by {
        assert(p[i] == p.subrange(n - 9, n as int)[i - (n - 9)]);
    }
    lemma_no_sep_after(p, n - 9);
    let seg = last_segment(p);
    assert(seg.len() >= 9);
    assert(seg.subrange(seg.len() - 9, seg.len() as int) =~= p.subrange(n - 9, n as int));
}

/// A staged file's manifest leads back to it: in the staging directory of
/// any mountpoint, the manifest staged for a file is recognised as a
/// manifest, and the content path read back from it is where the file was
/// staged (for extensions without separators).
pub proof fn law_staged_manifest_leads_back(mount: Seq<char>, d: UploadDescriptor)
    requires
        forall|i: int| 0 <= i < remote_extension(d.path).len() ==> remote_extension(d.path)[i] != '/',
    ensures
        is_manifest_path(join(staging_dir_text(mount), manifest_name_text(d))),
        file_name(join(staging_dir_text(mount), manifest_name_text(d))) is Some,
        content_path_text(join(staging_dir_text(mount), manifest_name_text(d))) == join(
            staging_dir_text(mount),
            staging_name_text(d),
        ),
{
    reveal_strlit("stokepile");
    reveal_strlit(".manifest");
    let dir = staging_dir_text(mount);
    let n = staging_name_text(d);
    let suffix = ".manifest"@;
    let nm = n + suffix;
    let hex = uuid_hex(d.uuid);
    assert(dir.len() > 0 && dir.last() == 'e');
    assert forall|i: int| 0 <= i < nm.len() implies nm[i] != '/' by {
        if i < 32 {
            assert(nm[i] == hex[i]);
        } else if i == 32 {
            assert(nm[i] == '.');
        } else if i < n.len() {
            assert(nm[i] == remote_extension(d.path)[i - 33]);
        } else {
            assert(nm[i] == suffix[i - n.len()]);
        }
    }
    assert(nm[0] == hex[0]);
    let m = join(dir, nm);
    assert(m == dir + seq!['/'] + nm);
    let base = dir + seq!['/'];
    assert(base.last() == '/');
    assert(last_sep_end(base) == base.len());
    lemma_last_sep_end_append(base, nm);
    assert(m =~= base + nm);
    assert(m.last() == 't') by {
        assert(m.last() == nm.last());
        assert(nm.last() == suffix.last());
    }
    assert(trim_trailing(m) == m);
    assert(last_segment(m) =~= nm);
    assert(file_name(m) == Some(nm));
    assert(m.subrange(m.len() - 9, m.len() as int) =~= suffix);
    assert(nm.subrange(0, nm.len() - 9) =~= n);
    assert(m.subrange(0, base.len() as int) =~= base);
    assert(base.drop_last() =~= dir);
    assert(trim_trailing(base) == trim_trailing(dir));
    assert(trim_trailing(dir) == dir);
    assert(parent_of(m) == Some(dir));
}

impl MountedStaging {
    /// The staging area of `this`, mounted as `mount`.
    pub fn from_mounted_parts(this: StagingConfig, mount: MountedFilesystem) -> (m: MountedStaging)
        ensures
            m.staging == this,
            m.mount == mount,
    {
        MountedStaging { staging: this, mount }
    }

    /// The directory staged files live in.
    pub fn staging_dir(&self) -> (p: String)
        ensures
            p@ == staging_dir_text(self.mount.mountpoint@),
    {
        let m = chars_of(self.mount.path());
        let f = chars_of(MOUNTABLE_DEVICE_FOLDER);
        proof {
            reveal_strlit("stokepile");
        }
        string_of(&join_chars(&m, &f))
    }

    /// `path` within the staging directory.
    pub fn relative_path(&self, path: &str) -> (p: String)
        ensures
            p@ == join(staging_dir_text(self.mount.mountpoint@), path@),
    {
        let dir = self.staging_dir();
        let d = chars_of(dir.as_str());
        let q = chars_of(path);
        string_of(&join_chars(&d, &q))
    }

    /// Where the staged file called `name` lives. The name must be relative.
    pub fn path_for_name(&self, name: &str) -> (p: String)
        requires
            !is_absolute(name@),
        ensures
            p@ == join(staging_dir_text(self.mount.mountpoint@), name@),
    {
        self.relative_path(name)
    }

    /// Where the file described by `d` is staged.
    pub fn file_path(&self, d: &UploadDescriptor) -> (p: String)
        ensures
            p@ == join(staging_dir_text(self.mount.mountpoint@), staging_name_text(*d)),
    {
        let name = staging_name(d);
        proof {
            let u = ((d.uuid as nat) / pow16(31)) % 16;
            assert(name@[0] == hex_char(u));
        }
        self.path_for_name(name.as_str())
    }

    /// Where the manifest of the file described by `d` is staged.
    pub fn manifest_path(&self, d: &UploadDescriptor) -> (p: String)
        ensures
            p@ == join(staging_dir_text(self.mount.mountpoint@), manifest_name_text(*d)),
    {
        let name = manifest_name(d);
        proof {
            let u = ((d.uuid as nat) / pow16(31)) % 16;
            assert(name@[0] == hex_char(u));
        }
        self.path_for_name(name.as_str())
    }

    /// The staged files among the entries of the staging directory: each
    /// manifest, with the content file it describes.
    pub fn staged_paths(entries: &Vec<String>) -> (out: Vec<StagedPaths>)
        ensures
            staged_texts(out@) == staged_paths_text(texts(entries@)),
    {
        let mut out: Vec<StagedPaths> = Vec::new();
        let mut i: usize = 0;
        while i < entries.len()
            invariant
                i <= entries.len(),
                staged_texts(out@) == staged_paths_text(texts(entries@.take(i as int))),
            decreases entries.len() - i,
        {
            let p = &entries[i];
            proof {
                assert(texts(entries@.take(i + 1)).drop_last() =~= texts(entries@.take(i as int)));
                assert(texts(entries@.take(i + 1)).last() == p@);
            }
            let ghost before = out@;
            if is_manifest(p.as_str()) {
                proof {
                    lemma_manifest_name(p@);
                }
                let content = content_path_from_manifest(p.as_str());
                out.push(StagedPaths { content_path: content, manifest_path: copy_string(p) });
            }
            i = i + 1;
            proof {
                assert(staged_texts(out@) =~= staged_paths_text(texts(entries@.take(i as int))));
            }
        }
        assert(entries@.take(entries.len() as int) =~= entries@);
        out
    }
}

} // verus!
