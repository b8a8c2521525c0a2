//! Files staged by hand: the name and extension a file is stored under, the
//! day it is filed by, and which files of a directory tree are taken.

use vstd::prelude::*;

use crate::paths::{extension_chars, extension_of, file_name, file_name_chars, stem_chars, stem_of};
use crate::stager::descriptor_for;
use crate::staging::{is_random_uuid, LocalDateTime, MediaTransform, NaiveDate, RemotePathDescriptor, UploadDescriptor};
use crate::text::{chars_of, chars_start_with, copy_string, starts_with, string_of};

verus! {

/// A file staged by hand: when it was last modified, where it is, and the
/// name and extension it is stored under.
#[derive(Debug)]
pub struct ManualFile {
    pub captured: LocalDateTime,
    pub source_path: String,
    pub name: String,
    pub extension: String,
}

/// Why a path cannot be staged by hand.
#[derive(Debug, PartialEq, Eq)]
pub enum ManualFileError {
    /// The path has no file name to take a stem from.
    NoFileName,
    /// The file name has no extension.
    NoExtension,
}

/// An entry found while walking a directory tree.
#[derive(Debug)]
pub struct FoundEntry {
    pub path: String,
    pub is_file: bool,
}

/// Whether a walked entry is taken: a file whose name does not start with
/// `._`.
pub open spec fn is_candidate(e: FoundEntry) -> bool {
    e.is_file && !(file_name(e.path@) is Some && starts_with(file_name(e.path@)->0, "._"@))
}

/// The paths of the entries taken, in walk order.
pub open spec fn candidate_paths(es: Seq<FoundEntry>) -> Seq<Seq<char>>
    decreases es.len(),
{
    if es.len() == 0 {
        Seq::empty()
    } else {
        candidate_paths(es.drop_last()) + if is_candidate(es.last()) {
            seq![es.last().path@]
        } else {
            Seq::empty()
        }
    }
}

/// The text of each path.
pub open spec fn path_texts(v: Seq<String>) -> Seq<Seq<char>> {
    v.map_values(|s: String| s@)
}

impl ManualFile {
    /// The file at `source_path`, last modified at `captured`: stored under
    /// its file stem and extension. Fails when the path has no file name or
    /// the name no extension.
    pub fn from_path(source_path: &str, captured: LocalDateTime) -> (r: Result<ManualFile, ManualFileError>)
        ensures
            match r {
                Ok(f) => file_name(source_path@) is Some && extension_of(file_name(source_path@)->0) is Some
                    && f.name@ == stem_of(file_name(source_path@)->0) && f.extension@ == extension_of(
                    file_name(source_path@)->0,
                )->0 && f.source_path@ == source_path@ && f.captured == captured,
                Err(e) => match e {
                    ManualFileError::NoFileName => file_name(source_path@) is None,
                    ManualFileError::NoExtension => file_name(source_path@) is Some && extension_of(
                        file_name(source_path@)->0,
                    ) is None,
                },
            },
    {
        let p = chars_of(source_path);
        let name = match file_name_chars(&p) {
            Some(n) => n,
            None => {
                return Err(ManualFileError::NoFileName);
            },
        };
        let stem = stem_chars(&name);
        let ext = match extension_chars(&name) {
            Some(e) => e,
            None => {
                return Err(ManualFileError::NoExtension);
            },
        };
        Ok(
            ManualFile {
                captured,
                source_path: source_path.to_owned(),
                name: string_of(&stem),
                extension: string_of(&ext),
            },
        )
    }

    /// Stores the file under `name` from now on.
    pub fn rename(&mut self, name: String)
        ensures
            final(self).name == name,
            final(self).captured == old(self).captured,
            final(self).source_path == old(self).source_path,
            final(self).extension == old(self).extension,
    {
        self.name = name;
    }

    /// Where the file is filed upstream: under the day it was modified, with
    /// its name and extension.
    pub fn remote_path(&self) -> (p: RemotePathDescriptor)
        ensures
            match p {
                RemotePathDescriptor::DateName { capture_date, name, extension } => capture_date == (NaiveDate {
                    year: self.captured.year,
                    month: self.captured.month,
                    day: self.captured.day,
                }) && name@ == self.name@ && extension@ == self.extension@,
                _ => false,
            },
    {
        RemotePathDescriptor::DateName {
            capture_date: self.captured.date(),
            name: copy_string(&self.name),
            extension: copy_string(&self.extension),
        }
    }

    /// The descriptor the file is staged with, for the device or event called
    /// `device_name`, `size` bytes long.
    pub fn descriptor(&self, device_name: &str, size: u64) -> (d: UploadDescriptor)
        ensures
            match d.path {
                RemotePathDescriptor::DateName { capture_date, name, extension } => capture_date == (NaiveDate {
                    year: self.captured.year,
                    month: self.captured.month,
                    day: self.captured.day,
                }) && name@ == self.name@ && extension@ == self.extension@,
                _ => false,
            },
            d.device_name@ == device_name@,
            d.size == size,
            forall|i: int| 0 <= i < 32 ==> #[trigger] d.content_hash@[i] == 0u8,
            is_random_uuid(d.uuid),
            d.transforms@ == Seq::<MediaTransform>::empty(),
    {
        descriptor_for(self.remote_path(), device_name, size)
    }

    /// The files of a walked tree that are staged by hand: files whose names
    /// do not start with `._`, in walk order.
    pub fn candidates(entries: &Vec<FoundEntry>) -> (out: Vec<String>)
        ensures
            path_texts(out@) == candidate_paths(entries@),
    {
        let prefix = chars_of("._");
        proof {
            reveal_strlit("._");
        }
        let mut out: Vec<String> = Vec::new();
        let mut i: usize = 0;
        while i < entries.len()
            invariant
                i <= entries.len(),
                prefix@ == "._"@,
                path_texts(out@) == candidate_paths(entries@.take(i as int)),
            decreases entries.len() - i,
        {
            let e = &entries[i];
            proof {
                assert(entries@.take(i + 1).drop_last() =~= entries@.take(i as int));
                assert(entries@.take(i + 1).last() == entries@[i as int]);
            }
            if e.is_file {
                let p = chars_of(e.path.as_str());
                let hidden = match file_name_chars(&p) {
                    Some(n) => chars_start_with(&n, &prefix),
                    None => false,
                };
                if !hidden {
                    out.push(copy_string(&e.path));
                }
            }
            i = i + 1;
            proof {
                assert(path_texts(out@) =~= candidate_paths(entries@.take(i as int)));
            }
        }
        assert(entries@.take(entries.len() as int) =~= entries@);
        out
    }
}

} // verus!
