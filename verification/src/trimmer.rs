//! Trimming staged media: where the trimmed copy and its manifest go, and the
//! descriptor the trimmed copy is staged with.

use vstd::prelude::*;

use crate::paths::{
    extend_chars, extension_chars, extension_of, file_name, file_name_chars, join, join_chars, parent_chars,
    parent_of, stem_chars, stem_of,
};
use crate::staging::{
    is_random_uuid, new_v4_uuid, non_trims, remaining_after_trim, renamed_by, tweak_text, MediaTransform,
    StagedFile, TrimDetail, UploadDescriptor,
};
use crate::text::{chars_of, copy_string, string_of};

verus! {

/// Trims staged media with `ffmpeg`.
#[derive(Debug, PartialEq, Eq)]
pub struct FFMpegTrimmer {}

/// Where a trimmed copy of a staged file is written, and its manifest.
#[derive(Debug, PartialEq, Eq)]
pub struct TrimTargets {
    pub content_path: String,
    pub manifest_path: String,
}

/// The file name of a copy of the file named `name` changed by `tweak`:
/// `STEM-TWEAK.EXTENSION`.
pub open spec fn tweaked_name(name: Seq<char>, tweak: Seq<char>) -> Seq<char> {
    stem_of(name) + tweak + seq!['.'] + extension_of(name)->0
}

/// Whether a path has what a trimmed copy's name is made from: a file name
/// with an extension, and a parent.
pub open spec fn trimmable_path(p: Seq<char>) -> bool {
    &&& file_name(p) is Some
    &&& extension_of(file_name(p)->0) is Some
    &&& parent_of(p) is Some
}

impl FFMpegTrimmer {
    /// A trimmer, when `ffmpeg -version` could be run; nothing otherwise
    /// (ffmpeg is missing or broken).
    pub fn new(ffmpeg_runs: bool) -> (r: Option<FFMpegTrimmer>)
        ensures
            r == (if ffmpeg_runs { Some(FFMpegTrimmer {}) } else { None::<FFMpegTrimmer> }),
    {
        if ffmpeg_runs {
            Some(FFMpegTrimmer {})
        } else {
            None
        }
    }

    /// Where the copy of `file` trimmed by `detail` goes: beside it, named
    /// `STEM-trim-START:END.EXTENSION`, with its manifest named after it with
    /// `.manifest` appended.
    pub fn targets(file: &StagedFile, detail: TrimDetail) -> (t: TrimTargets)
        requires
            trimmable_path(file.content_path@),
        ensures
            t.content_path@ == join(
                parent_of(file.content_path@)->0,
                tweaked_name(file_name(file.content_path@)->0, tweak_text(MediaTransform::Trim(detail))),
            ),
            t.manifest_path@ == join(
                parent_of(file.content_path@)->0,
                tweaked_name(file_name(file.content_path@)->0, tweak_text(MediaTransform::Trim(detail)))
                    + ".manifest"@,
            ),
    {
        let tweak = MediaTransform::Trim(detail).tweak_name();
        let p = chars_of(file.content_path.as_str());
        let name = file_name_chars(&p).unwrap();
        let mut new_name = stem_chars(&name);
        let t = chars_of(tweak.as_str());
        extend_chars(&mut new_name, &t);
        new_name.push('.');
        let ext = extension_chars(&name).unwrap();
        extend_chars(&mut new_name, &ext);
        let parent = parent_chars(&p).unwrap();
        let content = join_chars(&parent, &new_name);
        let mut manifest_name = new_name.clone();
        let suffix = chars_of(".manifest");
        extend_chars(&mut manifest_name, &suffix);
        let manifest = join_chars(&parent, &manifest_name);
        proof {
            assert(new_name@ =~= tweaked_name(name@, tweak_text(MediaTransform::Trim(detail))));
        }
        TrimTargets { content_path: string_of(&content), manifest_path: string_of(&manifest) }
    }

    /// The outcome of trimming `file` by `detail` into `targets`: when
    /// writing the trimmed copy went well (`written` holds its size and
    /// content hash), the staged trimmed copy, described as `file` with its
    /// name tweaked by the trim, a fresh random uuid, and the trim taken off
    /// its transforms; otherwise `file` back, with the reason.
    pub fn trim(
        file: StagedFile,
        targets: TrimTargets,
        detail: TrimDetail,
        written: Result<(u64, [u8; 32]), String>,
    ) -> (r: Result<StagedFile, (StagedFile, String)>)
        ensures
            match written {
                Ok(w) => r matches Ok(t) && t.content_path == targets.content_path
                    && t.manifest_path == targets.manifest_path
                    && renamed_by(file.descriptor.path, t.descriptor.path, tweak_text(MediaTransform::Trim(detail)))
                    && t.descriptor.device_name@ == file.descriptor.device_name@
                    && t.descriptor.size == w.0 && t.descriptor.content_hash == w.1
                    && is_random_uuid(t.descriptor.uuid)
                    && t.descriptor.transforms@ == non_trims(file.descriptor.transforms@),
                Err(e) => r == Err::<StagedFile, (StagedFile, String)>((file, e)),
            },
    {
        match written {
            Ok((size, content_hash)) => {
                let descriptor = UploadDescriptor {
                    path: file.descriptor.path.with_transform(MediaTransform::Trim(detail)),
                    device_name: copy_string(&file.descriptor.device_name),
                    content_hash,
                    size,
                    uuid: new_v4_uuid(),
                    transforms: remaining_after_trim(&file.descriptor.transforms),
                };
                Ok(StagedFile { content_path: targets.content_path, manifest_path: targets.manifest_path, descriptor })
            },
            Err(e) => Err((file, e)),
        }
    }
}

} // verus!
