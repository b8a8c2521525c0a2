//! Describing staged media: where each file goes upstream, the names of the
//! staged copy and its manifest, the transforms recorded against it, and the
//! grouping of descriptors used in reports.

use vstd::prelude::*;

use chrono::{Datelike, TimeZone, Timelike};

use crate::paths::{
    extension_of, file_name, join, parent_of, stem_of, with_file_name, extension_chars,
    file_name_chars, join_chars, parent_chars, stem_chars, extend_chars, is_plain, last_segment, last_sep_end,
    lemma_last_sep_end_append, lemma_last_sep_end_bounds, lemma_plain_parts, trim_trailing,
};
use crate::text::{
    chars_end_with, chars_of, copy_string, decimal, ends_with, push_chars, push_decimal, push_signed_zero_padded,
    push_str, push_zero_padded, signed_zero_padded, string_of, sub_chars, zero_padded,
};

verus! {

/// A wall clock date and time in the local time zone.
#[derive(Debug, PartialEq, Eq, Clone, Copy)]
pub struct LocalDateTime {
    pub year: i32,
    pub month: u32,
    pub day: u32,
    pub hour: u32,
    pub minute: u32,
    pub second: u32,
}

/// What `chrono::NaiveDateTime::parse_from_str` makes of `text` read with
/// `format`: year, month, day, hour, minute and second, or nothing when the
/// text does not match.
pub uninterp spec fn chrono_datetime(text: Seq<char>, format: Seq<char>) -> Option<(i32, u32, u32, u32, u32, u32)>;

/// Calls `chrono::NaiveDateTime::parse_from_str`, keeping the date and time
/// fields of the result. Trusted to be a function of the text and the format
/// alone (named by `chrono_datetime`).
#[verifier::external_body]
fn chrono_parse(text: &str, format: &str) -> (r: Option<(i32, u32, u32, u32, u32, u32)>)
    ensures
        r == chrono_datetime(text@, format@),
{
    chrono::NaiveDateTime::parse_from_str(text, format).ok().map(
        |d| (d.year(), d.month(), d.day(), d.hour(), d.minute(), d.second()),
    )
}

/// The wall clock time a parsed date and time stands for.
pub open spec fn datetime_of(t: (i32, u32, u32, u32, u32, u32)) -> LocalDateTime {
    LocalDateTime { year: t.0, month: t.1, day: t.2, hour: t.3, minute: t.4, second: t.5 }
}

/// Calls `chrono::TimeZone::datetime_from_str` for the machine's time zone
/// and says whether it read `text` in `format`. It reads the text as chrono's
/// `NaiveDateTime::parse_from_str` does, and for formats without offsets or
/// timestamps then succeeds only when that wall clock time names exactly one
/// instant in the machine's time zone. As that depends on the machine's time
/// zone, nothing is stated of the answer.
#[verifier::external_body]
#[allow(deprecated)]
fn local_time_read(text: &str, format: &str) -> (r: bool) {
    chrono::Local.datetime_from_str(text, format).is_ok()
}

/// Whether `r` is what reading a local time gives when the text parses as
/// `parsed`: nothing when it does not parse; when it does, that wall clock
/// time, or nothing when the machine's time zone skips or repeats it.
pub open spec fn read_as_local(r: Option<LocalDateTime>, parsed: Option<(i32, u32, u32, u32, u32, u32)>) -> bool {
    match parsed {
        Some(t) => r is None || r == Some(datetime_of(t)),
        None => r is None,
    }
}

/// Reads a local date and time from `text` in `format` (chrono's format
/// syntax, without offsets or timestamps): the wall clock time read, when it
/// names exactly one instant in the machine's time zone.
pub fn parse_datetime(text: &str, format: &str) -> (r: Option<LocalDateTime>)
    ensures
        read_as_local(r, chrono_datetime(text@, format@)),
{
    match chrono_parse(text, format) {
        Some(t) => if local_time_read(text, format) {
            Some(LocalDateTime { year: t.0, month: t.1, day: t.2, hour: t.3, minute: t.4, second: t.5 })
        } else {
            None
        },
        None => None,
    }
}

impl LocalDateTime {
    /// The calendar date of this time.
    pub fn date(&self) -> (d: NaiveDate)
        ensures
            d == (NaiveDate { year: self.year, month: self.month, day: self.day }),
    {
        NaiveDate { year: self.year, month: self.month, day: self.day }
    }
}

/// A calendar date.
#[derive(Debug, PartialEq, Eq, Clone, Copy)]
pub struct NaiveDate {
    pub year: i32,
    pub month: u32,
    pub day: u32,
}

/// Where an uploaded file is filed upstream.
#[derive(Debug, PartialEq, Eq)]
pub enum RemotePathDescriptor {
    /// Filed by the day and time it was captured.
    DateTime { capture_time: LocalDateTime, extension: String },
    /// Filed by the day it was captured, under a given name.
    DateName { capture_date: NaiveDate, name: String, extension: String },
    /// Filed under a given group and name.
    SpecifiedPath { group: String, name: String, extension: String },
}

/// A trim of a media file to the interval `start..end`.
#[derive(Debug, PartialEq, Eq, Clone, Copy)]
pub struct TrimDetail {
    pub start: u64,
    pub end: u64,
}

/// A change to apply to a media file before it is uploaded.
#[derive(Debug, PartialEq, Eq, Clone, Copy)]
pub enum MediaTransform {
    Trim(TrimDetail),
}

/// Everything known about a file to upload.
#[derive(Debug, PartialEq, Eq)]
pub struct UploadDescriptor {
    pub path: RemotePathDescriptor,
    pub device_name: String,
    pub content_hash: [u8; 32],
    pub size: u64,
    pub uuid: u128,
    pub transforms: Vec<MediaTransform>,
}

/// A file in the staging area, with its manifest.
#[derive(Debug, PartialEq, Eq)]
pub struct StagedFile {
    pub content_path: String,
    pub manifest_path: String,
    pub descriptor: UploadDescriptor,
}

/// How a transform shows in a file name.
pub open spec fn tweak_text(t: MediaTransform) -> Seq<char> {
    match t {
        MediaTransform::Trim(d) => "-trim-"@ + decimal(d.start as nat) + seq![':'] + decimal(d.end as nat),
    }
}

impl MediaTransform {
    /// The suffix this transform adds to a file name: `-trim-START:END`.
    pub fn tweak_name(&self) -> (s: String)
        ensures
            s@ == tweak_text(*self),
    {
        match self {
            MediaTransform::Trim(d) => {
                let mut s = String::new();
                push_str(&mut s, "-trim-");
                push_decimal(&mut s, d.start);
                s.push(':');
                push_decimal(&mut s, d.end);
                s
            },
        }
    }

    /// A trim to `start..end`.
    pub fn trim(start: u64, end: u64) -> (t: MediaTransform)
        ensures
            t == MediaTransform::Trim(TrimDetail { start, end }),
    {
        MediaTransform::Trim(TrimDetail { start, end })
    }
}

/// Things that describe a transform.
pub trait AsTransform {
    /// The transform described.
    spec fn transform_of(&self) -> MediaTransform;

    /// The transform described.
    fn as_transform(&self) -> (t: MediaTransform)
        ensures
            t == self.transform_of(),
    ;
}

impl AsTransform for TrimDetail {
    open spec fn transform_of(&self) -> MediaTransform {
        MediaTransform::Trim(*self)
    }

    fn as_transform(&self) -> (t: MediaTransform) {
        MediaTransform::Trim(*self)
    }
}

impl AsTransform for MediaTransform {
    open spec fn transform_of(&self) -> MediaTransform {
        *self
    }

    fn as_transform(&self) -> (t: MediaTransform) {
        *self
    }
}

/// `name.extension`.
pub open spec fn dotted(name: Seq<char>, extension: Seq<char>) -> Seq<char> {
    name + seq!['.'] + extension
}

/// A day as `YYYY/MM/DD`.
pub open spec fn day_text(year: i32, month: u32, day: u32) -> Seq<char> {
    signed_zero_padded(year as int, 4) + seq!['/'] + zero_padded(month as nat, 2) + seq!['/'] + zero_padded(
        day as nat,
        2,
    )
}

/// The logical group of a file: for things with a date, the day of the
/// recording as `YYYY/MM/DD`; `name.extension` otherwise.
pub open spec fn group_text(p: RemotePathDescriptor) -> Seq<char> {
    match p {
        RemotePathDescriptor::DateTime { capture_time, .. } => day_text(
            capture_time.year,
            capture_time.month,
            capture_time.day,
        ),
        RemotePathDescriptor::DateName { capture_date, .. } => day_text(
            capture_date.year,
            capture_date.month,
            capture_date.day,
        ),
        RemotePathDescriptor::SpecifiedPath { name, extension, .. } => dotted(name@, extension@),
    }
}

/// The logical name of a file: `HH-MM-SS.extension` for files filed by capture
/// time, `name.extension` otherwise.
pub open spec fn name_text(p: RemotePathDescriptor) -> Seq<char> {
    match p {
        RemotePathDescriptor::DateTime { capture_time, extension } => zero_padded(capture_time.hour as nat, 2)
            + seq!['-'] + zero_padded(capture_time.minute as nat, 2) + seq!['-'] + zero_padded(
            capture_time.second as nat,
            2,
        ) + seq!['.'] + extension@,
        RemotePathDescriptor::DateName { name, extension, .. } => dotted(name@, extension@),
        RemotePathDescriptor::SpecifiedPath { name, extension, .. } => dotted(name@, extension@),
    }
}

/// Where a file goes upstream: `/GROUP/DEVICE/NAME`.
pub open spec fn remote_path_text(d: UploadDescriptor) -> Seq<char> {
    seq!['/'] + group_text(d.path) + seq!['/'] + d.device_name@ + seq!['/'] + name_text(d.path)
}

/// Whether `r` is `p` with `tweak` appended to its name: the same kind of
/// descriptor with the same other fields; descriptors filed by capture time
/// are kept as they are.
pub open spec fn renamed_by(p: RemotePathDescriptor, r: RemotePathDescriptor, tweak: Seq<char>) -> bool {
    match (p, r) {
        (
            RemotePathDescriptor::DateTime { capture_time: a, extension: x },
            RemotePathDescriptor::DateTime { capture_time: b, extension: y },
        ) => a == b && x@ == y@,
        (
            RemotePathDescriptor::DateName { capture_date: a, name: n, extension: x },
            RemotePathDescriptor::DateName { capture_date: b, name: m, extension: y },
        ) => a == b && x@ == y@ && m@ == n@ + tweak,
        (
            RemotePathDescriptor::SpecifiedPath { group: g, name: n, extension: x },
            RemotePathDescriptor::SpecifiedPath { group: h, name: m, extension: y },
        ) => g@ == h@ && x@ == y@ && m@ == n@ + tweak,
        _ => false,
    }
}

impl RemotePathDescriptor {
    /// The logical group this media belongs to. For things with a date this is
    /// the day of the recording.
    pub fn group(&self) -> (s: String)
        ensures
            s@ == group_text(*self),
    {
        let mut s = String::new();
        match self {
            RemotePathDescriptor::DateTime { capture_time, .. } => {
                push_signed_zero_padded(&mut s, capture_time.year as i64, 4);
                s.push('/');
                push_zero_padded(&mut s, capture_time.month as u128, 2);
                s.push('/');
                push_zero_padded(&mut s, capture_time.day as u128, 2);
            },
            RemotePathDescriptor::DateName { capture_date, .. } => {
                push_signed_zero_padded(&mut s, capture_date.year as i64, 4);
                s.push('/');
                push_zero_padded(&mut s, capture_date.month as u128, 2);
                s.push('/');
                push_zero_padded(&mut s, capture_date.day as u128, 2);
            },
            RemotePathDescriptor::SpecifiedPath { name, extension, .. } => {
                push_str(&mut s, name.as_str());
                s.push('.');
                push_str(&mut s, extension.as_str());
            },
        }
        assert(s@ =~= group_text(*self));
        s
    }

    /// The logical name of the recording: the name with its extension, or for
    /// recordings filed by date, the time with the extension.
    pub fn name(&self) -> (s: String)
        ensures
            s@ == name_text(*self),
    {
        let mut s = String::new();
        match self {
            RemotePathDescriptor::DateTime { capture_time, extension } => {
                push_zero_padded(&mut s, capture_time.hour as u128, 2);
                s.push('-');
                push_zero_padded(&mut s, capture_time.minute as u128, 2);
                s.push('-');
                push_zero_padded(&mut s, capture_time.second as u128, 2);
                s.push('.');
                push_str(&mut s, extension.as_str());
            },
            RemotePathDescriptor::DateName { name, extension, .. } => {
                push_str(&mut s, name.as_str());
                s.push('.');
                push_str(&mut s, extension.as_str());
            },
            RemotePathDescriptor::SpecifiedPath { name, extension, .. } => {
                push_str(&mut s, name.as_str());
                s.push('.');
                push_str(&mut s, extension.as_str());
            },
        }
        assert(s@ =~= name_text(*self));
        s
    }

    /// This descriptor with `detail`'s tweak appended to its name. Files filed
    /// by capture time are left unchanged.
    pub fn with_modification<T: AsTransform>(&self, detail: &T) -> (r: RemotePathDescriptor)
        ensures
            renamed_by(*self, r, tweak_text(detail.transform_of())),
    {
        self.with_transform(detail.as_transform())
    }

    /// This descriptor with the name changed by `transform`'s tweak. Files filed
    /// by capture time are left unchanged.
    pub fn with_transform(&self, transform: MediaTransform) -> (r: RemotePathDescriptor)
        ensures
            renamed_by(*self, r, tweak_text(transform)),
    {
        let tweak = transform.tweak_name();
        match self {
            RemotePathDescriptor::DateTime { capture_time, extension } => RemotePathDescriptor::DateTime {
                capture_time: *capture_time,
                extension: copy_string(extension),
            },
            RemotePathDescriptor::DateName { capture_date, name, extension } => {
                let mut new_name = copy_string(name);
                push_str(&mut new_name, tweak.as_str());
                RemotePathDescriptor::DateName {
                    capture_date: *capture_date,
                    name: new_name,
                    extension: copy_string(extension),
                }
            },
            RemotePathDescriptor::SpecifiedPath { group, name, extension } => {
                let mut new_name = copy_string(name);
                push_str(&mut new_name, tweak.as_str());
                RemotePathDescriptor::SpecifiedPath {
                    group: copy_string(group),
                    name: new_name,
                    extension: copy_string(extension),
                }
            },
        }
    }
}

impl UploadDescriptor {
    /// The logical name of the file.
    pub fn name(&self) -> (s: String)
        ensures
            s@ == name_text(self.path),
    {
        self.path.name()
    }

    /// The logical group of the file.
    pub fn group(&self) -> (s: String)
        ensures
            s@ == group_text(self.path),
    {
        self.path.group()
    }

    /// The name of the device the file came from.
    pub fn device(&self) -> (s: String)
        ensures
            s@ == self.device_name@,
    {
        copy_string(&self.device_name)
    }

    /// Where the file goes upstream: `/GROUP/DEVICE/NAME`.
    pub fn remote_path(&self) -> (s: String)
        ensures
            s@ == remote_path_text(*self),
    {
        let mut s = String::new();
        s.push('/');
        let g = self.group();
        push_str(&mut s, g.as_str());
        s.push('/');
        push_str(&mut s, self.device_name.as_str());
        s.push('/');
        let n = self.name();
        push_str(&mut s, n.as_str());
        assert(s@ =~= remote_path_text(*self));
        s
    }

    /// Starts describing a file from the device named `device_name`.
    pub fn build(device_name: String) -> (b: UploadDescriptorBuilder)
        ensures
            b.device_name == device_name,
    {
        UploadDescriptorBuilder { device_name }
    }
}

/// Calls `uuid::Uuid::new_v4`. Its value is random; what holds of every
/// outcome, as the uuid source sets it, is the version nibble (4) and the
/// RFC 4122 variant bits.
#[verifier::external_body]
pub(crate) fn new_v4_uuid() -> (u: u128)
    ensures
        (u >> 76u128) & 0xf == 4,
        (u >> 62u128) & 0x3 == 2,
{
    uuid::Uuid::new_v4().as_u128()
}

/// Whether `u` carries the version and variant of a random uuid.
pub open spec fn is_random_uuid(u: u128) -> bool {
    (u >> 76u128) & 0xf == 4 && (u >> 62u128) & 0x3 == 2
}

/// A descriptor under construction for a device.
#[derive(Debug)]
pub struct UploadDescriptorBuilder {
    pub device_name: String,
}

impl UploadDescriptorBuilder {
    /// A descriptor for a file filed by its capture time, with no content
    /// recorded yet and a fresh random uuid.
    pub fn date_time(self, capture_time: LocalDateTime, extension: String) -> (d: UploadDescriptor)
        ensures
            d.path == (RemotePathDescriptor::DateTime { capture_time, extension }),
            d.device_name == self.device_name,
            forall|i: int| 0 <= i < 32 ==> #[trigger] d.content_hash@[i] == 0u8,
            d.size == 0,
            is_random_uuid(d.uuid),
            d.transforms@ == Seq::<MediaTransform>::empty(),
    {
        UploadDescriptor {
            path: RemotePathDescriptor::DateTime { capture_time, extension },
            content_hash: [0u8; 32],
            device_name: self.device_name,
            size: 0,
            uuid: new_v4_uuid(),
            transforms: Vec::new(),
        }
    }

    /// A descriptor for a file filed under a given group and name, with no
    /// content recorded yet and a fresh random uuid.
    pub fn manual_file(self, group: String, name: String, extension: String) -> (d: UploadDescriptor)
        ensures
            d.path == (RemotePathDescriptor::SpecifiedPath { group, name, extension }),
            d.device_name == self.device_name,
            forall|i: int| 0 <= i < 32 ==> #[trigger] d.content_hash@[i] == 0u8,
            d.size == 0,
            is_random_uuid(d.uuid),
            d.transforms@ == Seq::<MediaTransform>::empty(),
    {
        UploadDescriptor {
            path: RemotePathDescriptor::SpecifiedPath { group, name, extension },
            content_hash: [0u8; 32],
            device_name: self.device_name,
            size: 0,
            uuid: new_v4_uuid(),
            transforms: Vec::new(),
        }
    }
}

/// Whether a path names a manifest.
pub open spec fn is_manifest_path(p: Seq<char>) -> bool {
    ends_with(p, ".manifest"@)
}

/// Whether `path` names a manifest (it ends in `.manifest`).
pub fn is_manifest(path: &str) -> (r: bool)
    ensures
        r == is_manifest_path(path@),
{
    let p = chars_of(path);
    let suffix = chars_of(".manifest");
    chars_end_with(&p, &suffix)
}

/// The content file a manifest describes: the manifest's path with the
/// `.manifest` taken off its file name.
pub open spec fn content_path_text(manifest: Seq<char>) -> Seq<char> {
    let name = file_name(manifest)->0;
    with_file_name(manifest, name.subrange(0, name.len() - 9))
}

/// Converts a manifest path back into the path of the content it describes.
pub fn content_path_from_manifest(manifest: &str) -> (p: String)
    requires
        file_name(manifest@) is Some,
        ends_with(file_name(manifest@)->0, ".manifest"@),
    ensures
        p@ == content_path_text(manifest@),
{
    let m = chars_of(manifest);
    let name = file_name_chars(&m).unwrap();
    proof {
        reveal_strlit(".manifest");
    }
    let stem = sub_chars(&name, 0, name.len() - 9);
    let parent = match parent_chars(&m) {
        Some(x) => x,
        None => Vec::new(),
    };
    let joined = join_chars(&parent, &stem);
    string_of(&joined)
}

/// A path with `transform`'s tweak inserted before its extension.
pub open spec fn path_with_modification(p: Seq<char>, tweak: Seq<char>) -> Seq<char> {
    let name = file_name(p)->0;
    join(parent_of(p)->0, stem_of(name) + tweak + seq!['.'] + extension_of(name)->0)
}

/// The path a transformed copy of the file at `path` is written to:
/// `PARENT/STEM-TWEAK.EXTENSION`.
pub fn path_with_transform(path: &str, transform: MediaTransform) -> (p: String)
    requires
        file_name(path@) is Some,
        extension_of(file_name(path@)->0) is Some,
        parent_of(path@) is Some,
    ensures
        p@ == path_with_modification(path@, tweak_text(transform)),
{
    let tweak = transform.tweak_name();
    let pc = chars_of(path);
    let name = file_name_chars(&pc).unwrap();
    let mut stem = stem_chars(&name);
    let ext = extension_chars(&name).unwrap();
    let t = chars_of(tweak.as_str());
    extend_chars(&mut stem, &t);
    stem.push('.');
    extend_chars(&mut stem, &ext);
    let parent = parent_chars(&pc).unwrap();
    let joined = join_chars(&parent, &stem);
    string_of(&joined)
}

/// The manifest path kept beside a content file: its file name with
/// `.manifest` appended.
pub open spec fn manifest_path_text(content: Seq<char>) -> Seq<char> {
    with_file_name(content, file_name(content)->0 + ".manifest"@)
}

/// The manifest path for the content file at `content`.
pub fn manifest_path_for(content: &str) -> (p: String)
    requires
        file_name(content@) is Some,
    ensures
        p@ == manifest_path_text(content@),
{
    let c = chars_of(content);
    let mut name = file_name_chars(&c).unwrap();
    let suffix = chars_of(".manifest");
    extend_chars(&mut name, &suffix);
    let parent = match parent_chars(&c) {
        Some(x) => x,
        None => Vec::new(),
    };
    let joined = join_chars(&parent, &name);
    string_of(&joined)
}

/// A manifest kept beside a content file leads back to it: for a plain path
/// with a file name, the manifest path is recognised as a manifest, and the
/// content path read back from it is the path itself.
pub proof fn law_manifest_roundtrip(p: Seq<char>)
    requires
        is_plain(p),
        file_name(p) is Some,
    ensures
        is_manifest_path(manifest_path_text(p)),
        file_name(manifest_path_text(p)) is Some,
        content_path_text(manifest_path_text(p)) == p,
{
    reveal_strlit(".manifest");
    let suffix = ".manifest"@;
    let n = file_name(p)->0;
    let k = last_sep_end(p);
    lemma_last_sep_end_bounds(p);
    lemma_plain_parts(p, seq!['a']);
    assert(n.len() > 0);
    assert(n[0] == p[k as int]);
    assert((n + suffix)[0] == n[0]);
    lemma_plain_parts(p, n + suffix);
    let m = manifest_path_text(p);
    assert(m == p.subrange(0, k as int) + (n + suffix));
    assert(m =~= p + suffix);
    assert(m.subrange(m.len() - 9, m.len() as int) =~= suffix);
    assert forall|i: int| 0 <= i < suffix.len() implies suffix[i] != '/' by {}
    lemma_last_sep_end_append(p, suffix);
    assert(m.last() == 't');
    assert(trim_trailing(m) == m);
    assert(last_segment(m) =~= n + suffix);
    assert(file_name(m) == Some(n + suffix));
    assert((n + suffix).subrange(0, (n + suffix).len() - 9) =~= n);
    assert(m != seq!['/']) by {
        if m == seq!['/'] {
            assert(m.len() == 1);
        }
    }
    assert(m.subrange(0, k as int) =~= p.subrange(0, k as int));
    assert(parent_of(m) == parent_of(p));
    lemma_plain_parts(p, n);
}

/// Whether every character is an ASCII digit.
pub open spec fn all_digits(s: Seq<char>) -> bool {
    forall|i: int| 0 <= i < s.len() ==> '0' <= #[trigger] s[i] <= '9'
}

/// The value of a run of decimal digits.
pub open spec fn digits_value(s: Seq<char>) -> nat
    decreases s.len(),
{
    if s.len() == 0 {
        0
    } else {
        digits_value(s.drop_last()) * 10 + ((s.last() as int - '0' as int) as nat)
    }
}

/// What `str::parse::<u64>` reads from `s`: an optional `+`, then at least
/// one ASCII digit, with a value that fits in 64 bits.
pub open spec fn parsed_u64(s: Seq<char>) -> Option<u64> {
    let d = if s.len() > 0 && s[0] == '+' { s.drop_first() } else { s };
    if d.len() > 0 && all_digits(d) && digits_value(d) <= u64::MAX {
        Some(digits_value(d) as u64)
    } else {
        None
    }
}

/// Whether `s` has exactly one `:`, at `i`.
pub open spec fn sole_colon(s: Seq<char>, i: int) -> bool {
    0 <= i < s.len() && s[i] == ':' && forall|j: int| 0 <= j < s.len() && j != i ==> #[trigger] s[j] != ':'
}

/// The trim a `START:END` annotation asks for: exactly one `:`, with a
/// number on each side; nothing for any other text.
pub open spec fn trim_annotation(s: Seq<char>) -> Option<TrimDetail> {
    if exists|i: int| #[trigger] sole_colon(s, i) {
        let i = choose|i: int| #[trigger] sole_colon(s, i);
        match (parsed_u64(s.take(i)), parsed_u64(s.skip(i + 1))) {
            (Some(a), Some(b)) => Some(TrimDetail { start: a, end: b }),
            _ => None,
        }
    } else {
        None
    }
}

proof fn lemma_digits_value_prefix(s: Seq<char>, k: int)
    requires
        all_digits(s),
        0 <= k <= s.len(),
    ensures
        digits_value(s.take(k)) <= digits_value(s),
    decreases s.len() - k,
{
    if k < s.len() {
        let t = s.take(k + 1);
        assert(t.drop_last() =~= s.take(k));
        assert('0' <= t.last() <= '9');
        lemma_digits_value_prefix(s, k + 1);
    } else {
        assert(s.take(k) =~= s);
    }
}

/// Reads a `u64` as `str::parse` does.
pub fn parse_u64(s: &Vec<char>) -> (r: Option<u64>)
    ensures
        r == parsed_u64(s@),
{
    let start: usize = if s.len() > 0 && s[0] == '+' { 1 } else { 0 };
    let ghost d = if s@.len() > 0 && s@[0] == '+' { s@.drop_first() } else { s@ };
    assert(d =~= s@.skip(start as int));
    if start == s.len() {
        return None;
    }
    let mut value: u64 = 0;
    let mut i: usize = start;
    while i < s.len()
        invariant
            start <= i <= s.len(),
            d =~= s@.skip(start as int),
            d == (if s@.len() > 0 && s@[0] == '+' { s@.drop_first() } else { s@ }),
            d.len() > 0,
            all_digits(d.take(i - start)),
            value == digits_value(d.take(i - start)),
        decreases s.len() - i,
    {
        let c = s[i];
        proof {
            assert(d[i - start] == c);
        }
        if c < '0' || c > '9' {
            assert(!all_digits(d));
            return None;
        }
        let digit = (c as u32 - '0' as u32) as u64;
        proof {
            let t = d.take(i - start + 1);
            assert(t.drop_last() =~= d.take(i - start));
            assert(t.last() == c);
            assert forall|j: int| 0 <= j < t.len() implies '0' <= #[trigger] t[j] <= '9' by {
                if j < t.len() - 1 {
                    assert(t[j] == d.take(i - start)[j]);
                }
            }
        }
        if value > 1844674407370955161 || (value == 1844674407370955161 && digit > 5) {
            proof {
                let t = d.take(i - start + 1);
                assert(digits_value(t) > u64::MAX);
                if all_digits(d) {
                    lemma_digits_value_prefix(d, i - start + 1);
                }
            }
            return None;
        }
        value = value * 10 + digit;
        i = i + 1;
    }
    assert(d.take(i - start) =~= d);
    Some(value)
}

/// Reads a `START:END` trim annotation; nothing when the text is not one
/// (not exactly one `:`, or a side that is not a number).
pub fn parse_trim(spec: &str) -> (r: Option<TrimDetail>)
    ensures
        r == trim_annotation(spec@),
{
    let s = chars_of(spec);
    let mut colon: usize = 0;
    let mut count: usize = 0;
    let mut i: usize = 0;
    while i < s.len()
        invariant
            s@ == spec@,
            i <= s.len(),
            count <= i,
            count == 0 ==> forall|j: int| 0 <= j < i ==> s@[j] != ':',
            count == 1 ==> colon < i && s@[colon as int] == ':' && forall|j: int|
                0 <= j < i && j != colon ==> #[trigger] s@[j] != ':',
            count >= 2 ==> !(exists|k: int| #[trigger] sole_colon(s@, k)),
        decreases s.len() - i,
    {
        if s[i] == ':' {
            if count == 1 {
                proof {
                    assert forall|k: int| !#[trigger] sole_colon(s@, k) by {
                        if sole_colon(s@, k) {
                            if k != colon as int {
                                assert(s@[colon as int] == ':');
                            } else {
                                assert(s@[i as int] == ':');
                            }
                        }
                    }
                }
                count = 2;
            } else if count == 0 {
                colon = i;
                count = 1;
            }
        }
        i = i + 1;
    }
    if count != 1 {
        proof {
            if count == 0 {
                assert forall|k: int| !#[trigger] sole_colon(s@, k) by {
                    if sole_colon(s@, k) {
                        assert(s@[k] == ':');
                    }
                }
            }
        }
        return None;
    }
    proof {
        assert(sole_colon(s@, colon as int));
        assert forall|k: int| #[trigger] sole_colon(s@, k) implies k == colon as int by {
            if k != colon as int {
                assert(s@[colon as int] == ':');
            }
        }
    }
    let left = sub_chars(&s, 0, colon);
    let right = sub_chars(&s, colon + 1, s.len());
    assert(left@ =~= s@.take(colon as int));
    assert(right@ =~= s@.skip(colon + 1));
    match (parse_u64(&left), parse_u64(&right)) {
        (Some(a), Some(b)) => Some(TrimDetail { start: a, end: b }),
        _ => None,
    }
}

/// The transforms that remain once a trim has been applied: every transform
/// that is not a trim.
pub open spec fn non_trims(ts: Seq<MediaTransform>) -> Seq<MediaTransform> {
    ts.filter(|t: MediaTransform| !(t is Trim))
}

/// The transforms left on a file once its trim has been applied.
pub fn remaining_after_trim(ts: &Vec<MediaTransform>) -> (out: Vec<MediaTransform>)
    ensures
        out@ == non_trims(ts@),
{
    let mut out: Vec<MediaTransform> = Vec::new();
    let mut i: usize = 0;
    while i < ts.len()
        invariant
            i <= ts.len(),
            out@ == non_trims(ts@.subrange(0, i as int)),
        decreases ts.len() - i,
    {
        proof {
            reveal(Seq::filter);
            assert(ts@.subrange(0, i + 1).drop_last() =~= ts@.subrange(0, i as int));
        }
        match ts[i] {
            MediaTransform::Trim(_) => {},
        }
        i = i + 1;
    }
    assert(ts@.subrange(0, ts.len() as int) =~= ts@);
    out
}

/// Groups of indices, each with the text of its key.
pub type GroupsText = Seq<(Seq<char>, Seq<usize>)>;

/// Whether one group is right: it is not empty, lists in increasing order
/// members whose key is the group's name, and lists every such member.
pub open spec fn group_ok(keys: Seq<Seq<char>>, members: Seq<usize>, grp: (Seq<char>, Seq<usize>)) -> bool {
    &&& grp.1.len() > 0
    &&& forall|k: int| 0 <= k < grp.1.len() ==> members.contains(#[trigger] grp.1[k]) && keys[grp.1[k] as int] == grp.0
    &&& forall|k: int, l: int| 0 <= k < l < grp.1.len() ==> #[trigger] grp.1[k] < #[trigger] grp.1[l]
    &&& forall|k: int| 0 <= k < members.len() && keys[#[trigger] members[k] as int] == grp.0 ==> grp.1.contains(members[k])
}

/// No two groups share a name.
pub open spec fn groups_distinct(groups: GroupsText) -> bool {
    forall|g: int, h: int| 0 <= g < h < groups.len() ==> #[trigger] groups[g].0 != #[trigger] groups[h].0
}

/// Every group is right.
pub open spec fn groups_each_ok(keys: Seq<Seq<char>>, members: Seq<usize>, groups: GroupsText) -> bool {
    forall|g: int| 0 <= g < groups.len() ==> group_ok(keys, members, #[trigger] groups[g])
}

/// Whether some group is named `t`.
pub open spec fn has_group(groups: GroupsText, t: Seq<char>) -> bool {
    exists|g: int| 0 <= g < groups.len() && #[trigger] groups[g].0 == t
}

/// Every member's key names a group.
pub open spec fn groups_cover(keys: Seq<Seq<char>>, members: Seq<usize>, groups: GroupsText) -> bool {
    forall|k: int| 0 <= k < members.len() ==> has_group(groups, keys[#[trigger] members[k] as int])
}

/// Whether `groups` partitions `members` by key: one group per distinct key,
/// each right.
pub open spec fn groups_ok(keys: Seq<Seq<char>>, members: Seq<usize>, groups: GroupsText) -> bool {
    &&& groups_distinct(groups)
    &&& groups_each_ok(keys, members, groups)
    &&& groups_cover(keys, members, groups)
}

/// Members listed in increasing order, each an index into `keys`.
pub open spec fn members_ok(n: nat, members: Seq<usize>) -> bool {
    &&& forall|k: int| 0 <= k < members.len() ==> #[trigger] members[k] < n
    &&& forall|k: int, l: int| 0 <= k < l < members.len() ==> #[trigger] members[k] < #[trigger] members[l]
}

/// The text of each string.
pub open spec fn texts(v: Seq<String>) -> Seq<Seq<char>> {
    v.map_values(|s: String| s@)
}

/// The groups as text.
pub open spec fn groups_view(v: Seq<(String, Vec<usize>)>) -> Seq<(Seq<char>, Seq<usize>)> {
    v.map_values(|p: (String, Vec<usize>)| (p.0@, p.1@))
}

/// Whether `names` holds a string with the text of `s`.
fn contains_text(names: &Vec<String>, s: &String) -> (r: bool)
    ensures
        r == exists|g: int| 0 <= g < names.len() && #[trigger] names@[g]@ == s@,
{
    let mut g: usize = 0;
    while g < names.len()
        invariant
            g <= names.len(),
            forall|h: int| 0 <= h < g ==> #[trigger] names@[h]@ != s@,
        decreases names.len() - g,
    {
        if crate::text::same_string(&names[g], s) {
            return true;
        }
        g = g + 1;
    }
    false
}

/// The members whose key has the text of `name`, in order.
fn members_with_key(keys: &Vec<String>, members: &Vec<usize>, name: &String) -> (idx: Vec<usize>)
    requires
        members_ok(keys.len() as nat, members@),
    ensures
        forall|k: int| 0 <= k < idx.len() ==> members@.contains(#[trigger] idx@[k]) && keys@[idx@[k] as int]@ == name@,
        forall|k: int, l: int| 0 <= k < l < idx.len() ==> #[trigger] idx@[k] < #[trigger] idx@[l],
        forall|k: int| 0 <= k < members.len() && keys@[#[trigger] members@[k] as int]@ == name@ ==> idx@.contains(members@[k]),
{
    let mut idx: Vec<usize> = Vec::new();
    let mut i: usize = 0;
    while i < members.len()
        invariant
            i <= members.len(),
            members_ok(keys.len() as nat, members@),
            forall|k: int| 0 <= k < idx.len() ==> exists|j: int| 0 <= j < i && #[trigger] idx@[k] == members@[j],
            forall|k: int| 0 <= k < idx.len() ==> keys@[#[trigger] idx@[k] as int]@ == name@,
            forall|k: int, l: int| 0 <= k < l < idx.len() ==> #[trigger] idx@[k] < #[trigger] idx@[l],
            forall|k: int| 0 <= k < i && keys@[#[trigger] members@[k] as int]@ == name@ ==> idx@.contains(members@[k]),
            idx.len() > 0 ==> (i > 0 && idx@.last() <= members@[i - 1]),
        decreases members.len() - i,
    {
        let m = members[i];
        if crate::text::same_string(&keys[m], name) {
            let ghost before = idx@;
            idx.push(m);
            proof {
                assert forall|k: int| 0 <= k < idx.len() implies exists|j: int| 0 <= j < i + 1 && #[trigger] idx@[k] == members@[j] by {
                    if k < before.len() {
                        assert(idx@[k] == before[k]);
                    } else {
                        assert(idx@[k] == members@[i as int]);
                    }
                }
                assert forall|k: int, l: int| 0 <= k < l < idx.len() implies #[trigger] idx@[k] < #[trigger] idx@[l] by {
                    if l == before.len() {
                        if before.len() > 0 {
                            assert(before[k] <= before.last());
                            assert(members@[i - 1] < members@[i as int]);
                        }
                    }
                }
                assert forall|k: int| 0 <= k < i + 1 && keys@[#[trigger] members@[k] as int]@ == name@ implies idx@.contains(members@[k]) by {
                    if k < i {
                        let w = choose|w: int| 0 <= w < before.len() && before[w] == members@[k];
                        assert(idx@[w] == members@[k]);
                    } else {
                        assert(idx@[before.len() as int] == members@[k]);
                    }
                }
            }
        } else {
            proof {
                assert forall|k: int| 0 <= k < idx.len() implies idx@[k] <= members@[i as int] by {
                    if idx.len() > 0 {
                        assert(idx@[k] <= idx@.last());
                        assert(members@[i - 1] < members@[i as int]);
                    }
                }
            }
        }
        i = i + 1;
    }
    proof {
        assert forall|k: int| 0 <= k < idx.len() implies members@.contains(#[trigger] idx@[k]) by {
            let j = choose|j: int| 0 <= j < i && idx@[k] == members@[j];
            assert(members@[j] == idx@[k]);
        }
    }
    idx
}

/// The text of the key of the `k`th member.
pub open spec fn key_of(keys: Seq<String>, members: Seq<usize>, k: int) -> Seq<char> {
    keys[members[k] as int]@
}

/// Whether some string in `names` has the text `t`.
pub open spec fn has_name(names: Seq<String>, t: Seq<char>) -> bool {
    exists|g: int| 0 <= g < names.len() && #[trigger] names[g]@ == t
}

/// Whether `t` is the key of one of the first `upto` members.
pub open spec fn is_key(keys: Seq<String>, members: Seq<usize>, upto: int, t: Seq<char>) -> bool {
    exists|k: int| 0 <= k < upto && #[trigger] key_of(keys, members, k) == t
}

/// The distinct keys of `members`, each once.
fn distinct_keys(keys: &Vec<String>, members: &Vec<usize>) -> (names: Vec<String>)
    requires
        members_ok(keys.len() as nat, members@),
    ensures
        forall|g: int, h: int| 0 <= g < h < names.len() ==> #[trigger] names@[g]@ != #[trigger] names@[h]@,
        forall|g: int| 0 <= g < names.len() ==> is_key(keys@, members@, members.len() as int, #[trigger] names@[g]@),
        forall|k: int| 0 <= k < members.len() ==> has_name(names@, #[trigger] key_of(keys@, members@, k)),
{
    let mut names: Vec<String> = Vec::new();
    let mut i: usize = 0;
    while i < members.len()
        invariant
            i <= members.len(),
            members_ok(keys.len() as nat, members@),
            forall|g: int, h: int| 0 <= g < h < names.len() ==> #[trigger] names@[g]@ != #[trigger] names@[h]@,
            forall|g: int| 0 <= g < names.len() ==> is_key(keys@, members@, i as int, #[trigger] names@[g]@),
            forall|k: int| 0 <= k < i ==> has_name(names@, #[trigger] key_of(keys@, members@, k)),
        decreases members.len() - i,
    {
        let m = members[i];
        let ghost before = names@;
        let present = contains_text(&names, &keys[m]);
        if !present {
            names.push(copy_string(&keys[m]));
        }
        proof {
            assert(key_of(keys@, members@, i as int) == keys@[m as int]@);
            assert forall|g: int| 0 <= g < names.len() implies is_key(keys@, members@, i + 1, #[trigger] names@[g]@) by {
                if g < before.len() {
                    assert(names@[g] == before[g]);
                    assert(is_key(keys@, members@, i as int, before[g]@));
                    let k = choose|k: int| 0 <= k < i && #[trigger] key_of(keys@, members@, k) == before[g]@;
                    assert(key_of(keys@, members@, k) == names@[g]@);
                } else {
                    assert(key_of(keys@, members@, i as int) == names@[g]@);
                }
            }
            assert forall|k: int| 0 <= k < i + 1 implies has_name(names@, #[trigger] key_of(keys@, members@, k)) by {
                if k < i {
                    assert(has_name(before, key_of(keys@, members@, k)));
                    let g = choose|g: int| 0 <= g < before.len() && #[trigger] before[g]@ == key_of(keys@, members@, k);
                    assert(names@[g] == before[g]);
                } else if present {
                    let g = choose|g: int| 0 <= g < before.len() && #[trigger] before[g]@ == keys@[m as int]@;
                    assert(names@[g] == before[g]);
                } else {
                    assert(names@[before.len() as int]@ == key_of(keys@, members@, k));
                }
            }
            assert forall|g: int, h: int| 0 <= g < h < names.len() implies #[trigger] names@[g]@ != #[trigger] names@[h]@ by {
                if h == before.len() && !present {
                    assert(names@[g] == before[g]);
                } else {
                    assert(names@[g] == before[g]);
                    assert(names@[h] == before[h]);
                }
            }
        }
        i = i + 1;
    }
    names
}

/// Groups `members` (indices into `keys`) by the text of their key.
pub fn group_by_keys(keys: &Vec<String>, members: &Vec<usize>) -> (groups: Vec<(String, Vec<usize>)>)
    requires
        members_ok(keys.len() as nat, members@),
    ensures
        groups_ok(texts(keys@), members@, groups_view(groups@)),
{
    let names = distinct_keys(keys, members);
    let mut groups: Vec<(String, Vec<usize>)> = Vec::new();
    let mut g: usize = 0;
    while g < names.len()
        invariant
            g <= names.len(),
            members_ok(keys.len() as nat, members@),
            groups.len() == g,
            forall|h: int| 0 <= h < g ==> (#[trigger] groups@[h]).0@ == names@[h]@,
            forall|h: int| 0 <= h < g ==> group_ok(texts(keys@), members@, (#[trigger] groups@[h].0@, groups@[h].1@)),
            forall|a: int, b: int| 0 <= a < b < names.len() ==> #[trigger] names@[a]@ != #[trigger] names@[b]@,
            forall|a: int| 0 <= a < names.len() ==> is_key(keys@, members@, members.len() as int, #[trigger] names@[a]@),
        decreases names.len() - g,
    {
        let idx = members_with_key(keys, members, &names[g]);
        proof {
            assert(is_key(keys@, members@, members.len() as int, names@[g as int]@));
            let k = choose|k: int| 0 <= k < members.len() && #[trigger] key_of(keys@, members@, k) == names@[g as int]@;
            assert(idx@.contains(members@[k]));
            assert forall|k: int| 0 <= k < members.len() && texts(keys@)[#[trigger] members@[k] as int] == names@[g as int]@ implies idx@.contains(members@[k]) by {
                assert(keys@[members@[k] as int]@ == texts(keys@)[members@[k] as int]);
            }
            assert forall|k: int| 0 <= k < idx.len() implies members@.contains(#[trigger] idx@[k]) && texts(keys@)[idx@[k] as int] == names@[g as int]@ by {
                let j = choose|j: int| 0 <= j < members.len() && members@[j] == idx@[k];
                assert(idx@[k] < keys.len());
            }
        }
        let ghost before = groups@;
        groups.push((copy_string(&names[g]), idx));
        proof {
            assert forall|h: int| 0 <= h < g + 1 implies group_ok(texts(keys@), members@, (#[trigger] groups@[h].0@, groups@[h].1@)) by {
                if h < g {
                    assert(groups@[h] == before[h]);
                }
            }
        }
        g = g + 1;
    }
    proof {
        let gv = groups_view(groups@);
        assert(gv.len() == groups.len());
        assert(names.len() == groups.len());
        assert forall|a: int, b: int| 0 <= a < b < gv.len() implies #[trigger] gv[a].0 != #[trigger] gv[b].0 by {
            assert(gv[a].0 == names@[a]@);
            assert(gv[b].0 == names@[b]@);
        }
        assert forall|a: int| 0 <= a < gv.len() implies group_ok(texts(keys@), members@, #[trigger] gv[a]) by {
            assert(gv[a] == (groups@[a].0@, groups@[a].1@));
        }
        let ks = texts(keys@);
        let ms = members@;
        assert forall|k: int| 0 <= k < ms.len() implies has_group(gv, ks[#[trigger] ms[k] as int]) by {
            assert(has_name(names@, key_of(keys@, members@, k)));
            let a = choose|a: int| 0 <= a < names.len() && #[trigger] names@[a]@ == key_of(keys@, members@, k);
            assert(gv[a].0 == names@[a]@);
            assert(ks[ms[k] as int] == key_of(keys@, members@, k));
        }
        assert(groups_distinct(gv));
        assert(groups_each_ok(ks, ms, gv));
        assert(groups_cover(ks, ms, gv));
    }
    groups
}

/// The device names of the descriptors.
pub open spec fn device_names(descs: Seq<UploadDescriptor>) -> Seq<Seq<char>> {
    descs.map_values(|d: UploadDescriptor| d.device_name@)
}

/// The indices `0..n`.
pub open spec fn all_indices(n: nat) -> Seq<usize> {
    Seq::new(n, |i: int| i as usize)
}

fn indices_upto(n: usize) -> (v: Vec<usize>)
    ensures
        v@ == all_indices(n as nat),
        members_ok(n as nat, v@),
{
    let mut v: Vec<usize> = Vec::new();
    let mut i: usize = 0;
    while i < n
        invariant
            i <= n,
            v@ == all_indices(i as nat),
        decreases n - i,
    {
        v.push(i);
        i = i + 1;
        assert(v@ =~= all_indices(i as nat));
    }
    v
}

fn device_name_list(descs: &Vec<UploadDescriptor>) -> (v: Vec<String>)
    ensures
        texts(v@) == device_names(descs@),
        v.len() == descs.len(),
{
    let mut v: Vec<String> = Vec::new();
    let mut i: usize = 0;
    while i < descs.len()
        invariant
            i <= descs.len(),
            v.len() == i,
            forall|j: int| 0 <= j < i ==> #[trigger] v@[j]@ == descs@[j].device_name@,
        decreases descs.len() - i,
    {
        v.push(copy_string(&descs[i].device_name));
        i = i + 1;
    }
    assert(texts(v@) =~= device_names(descs@));
    v
}

fn group_name_list(descs: &Vec<UploadDescriptor>) -> (v: Vec<String>)
    ensures
        texts(v@) == descs@.map_values(|d: UploadDescriptor| group_text(d.path)),
        v.len() == descs.len(),
{
    let mut v: Vec<String> = Vec::new();
    let mut i: usize = 0;
    while i < descs.len()
        invariant
            i <= descs.len(),
            v.len() == i,
            forall|j: int| 0 <= j < i ==> #[trigger] v@[j]@ == group_text(descs@[j].path),
        decreases descs.len() - i,
    {
        v.push(descs[i].group());
        i = i + 1;
    }
    assert(texts(v@) =~= descs@.map_values(|d: UploadDescriptor| group_text(d.path)));
    v
}

/// Descriptor indices grouped by the device they came from: one group per
/// device, each listing, in order, every descriptor from that device.
pub fn grouped_by_device(descs: &Vec<UploadDescriptor>) -> (groups: Vec<(String, Vec<usize>)>)
    ensures
        groups_ok(device_names(descs@), all_indices(descs.len() as nat), groups_view(groups@)),
{
    let names = device_name_list(descs);
    let all = indices_upto(descs.len());
    group_by_keys(&names, &all)
}

/// The logical group of each descriptor.
pub open spec fn group_names(descs: Seq<UploadDescriptor>) -> Seq<Seq<char>> {
    descs.map_values(|d: UploadDescriptor| group_text(d.path))
}

/// Descriptor indices grouped by device, and within each device by the
/// logical group (the day, for dated media) of the descriptor.
pub fn grouped_by_device_by_group(descs: &Vec<UploadDescriptor>) -> (out: Vec<(String, Vec<(String, Vec<usize>)>)>)
    ensures
        (exists|dev: GroupsText|
            groups_ok(device_names(descs@), all_indices(descs.len() as nat), dev)
            && dev.len() == out.len()
            && forall|d: int| 0 <= d < out.len() ==> (#[trigger] out@[d]).0@ == dev[d].0 && groups_ok(
                group_names(descs@),
                dev[d].1,
                groups_view(out@[d].1@),
            )),
{
    let by_device = grouped_by_device(descs);
    let groups = group_name_list(descs);
    let ghost dev = groups_view(by_device@);
    let mut out: Vec<(String, Vec<(String, Vec<usize>)>)> = Vec::new();
    let mut d: usize = 0;
    while d < by_device.len()
        invariant
            d <= by_device.len(),
            out.len() == d,
            dev == groups_view(by_device@),
            dev.len() == by_device.len(),
            texts(groups@) == group_names(descs@),
            groups.len() == descs.len(),
            groups_ok(device_names(descs@), all_indices(descs.len() as nat), dev),
            forall|e: int| 0 <= e < d ==> (#[trigger] out@[e]).0@ == dev[e].0 && groups_ok(
                group_names(descs@),
                dev[e].1,
                groups_view(out@[e].1@),
            ),
        decreases by_device.len() - d,
    {
        let members = &by_device[d].1;
        proof {
            assert(dev[d as int] == (by_device@[d as int].0@, by_device@[d as int].1@));
            assert(group_ok(device_names(descs@), all_indices(descs.len() as nat), dev[d as int]));
            assert forall|k: int| 0 <= k < members.len() implies #[trigger] members@[k] < groups.len() by {
                assert(all_indices(descs.len() as nat).contains(members@[k]));
            }
        }
        let inner = group_by_keys(&groups, members);
        let name = copy_string(&by_device[d].0);
        let ghost before = out@;
        out.push((name, inner));
        proof {
            assert forall|e: int| 0 <= e < d + 1 implies (#[trigger] out@[e]).0@ == dev[e].0 && groups_ok(
                group_names(descs@),
                dev[e].1,
                groups_view(out@[e].1@),
            ) by {
                if e < d {
                    assert(out@[e] == before[e]);
                }
            }
        }
        d = d + 1;
    }
    out
}

} // verus!
