//! The report of an upload run: for each file, how each backend fared, and the
//! files of a run kept per device.

use vstd::prelude::*;

use crate::staging::UploadDescriptor;
use crate::text::copy_string;

verus! {

/// How the upload of a file to one backend went.
#[derive(Debug, PartialEq, Eq)]
pub enum UploadStatus {
    /// The backend already held the file.
    AlreadyUploaded,
    /// The file was uploaded.
    Succeeded,
    /// The upload failed, with the reason.
    Errored(String),
}

/// Whether a status counts as the file being safely upstream.
pub open spec fn status_ok(s: UploadStatus) -> bool {
    match s {
        UploadStatus::AlreadyUploaded => true,
        UploadStatus::Succeeded => true,
        UploadStatus::Errored(_) => false,
    }
}

/// Whether every backend holds the file after a run.
pub open spec fn all_ok(results: Seq<(String, UploadStatus)>) -> bool {
    forall|i: int| 0 <= i < results.len() ==> status_ok(#[trigger] results[i].1)
}

/// An entry in the report: a file and, for each backend by name, how its
/// upload went.
#[derive(Debug)]
pub struct ReportEntry {
    pub desc: UploadDescriptor,
    pub results: Vec<(String, UploadStatus)>,
}

impl ReportEntry {
    /// Binds a descriptor to the results of uploading it.
    pub fn new(desc: UploadDescriptor, results: Vec<(String, UploadStatus)>) -> (e: ReportEntry)
        ensures
            e.desc == desc,
            e.results == results,
    {
        ReportEntry { desc, results }
    }

    /// Whether every attempt to upload in this transaction was successful.
    pub fn is_success(&self) -> (r: bool)
        ensures
            r == all_ok(self.results@),
    {
        let mut i: usize = 0;
        while i < self.results.len()
            invariant
                i <= self.results.len(),
                forall|j: int| 0 <= j < i ==> status_ok(#[trigger] self.results@[j].1),
            decreases self.results.len() - i,
        {
            match &self.results[i].1 {
                UploadStatus::Errored(_) => {
                    assert(!status_ok(self.results@[i as int].1));
                    return false;
                },
                _ => {},
            }
            i = i + 1;
        }
        true
    }
}

/// A report describing how a series of uploads went, entries kept per device.
#[derive(Debug)]
pub struct UploadReport {
    files: Vec<(String, Vec<ReportEntry>)>,
}

/// The entries recorded for `device`, none when there are none.
pub open spec fn entries_for(files: Seq<(String, Vec<ReportEntry>)>, device: Seq<char>) -> Seq<ReportEntry>
    decreases files.len(),
{
    if files.len() == 0 {
        Seq::empty()
    } else if files.last().0@ == device {
        files.last().1@
    } else {
        entries_for(files.drop_last(), device)
    }
}

/// The devices that have entries.
pub open spec fn devices_of(files: Seq<(String, Vec<ReportEntry>)>) -> Set<Seq<char>> {
    Set::new(|d: Seq<char>| exists|i: int| 0 <= i < files.len() && #[trigger] files[i].0@ == d)
}

proof fn lemma_entries_for_index(files: Seq<(String, Vec<ReportEntry>)>, i: int)
    requires
        0 <= i < files.len(),
        forall|a: int, b: int| 0 <= a < b < files.len() ==> #[trigger] files[a].0@ != #[trigger] files[b].0@,
    ensures
        entries_for(files, files[i].0@) == files[i].1@,
    decreases files.len(),
{
    if i < files.len() - 1 {
        assert(files.last().0@ != files[i].0@);
        assert(files.drop_last()[i] == files[i]);
        lemma_entries_for_index(files.drop_last(), i);
    }
}

proof fn lemma_entries_for_absent(files: Seq<(String, Vec<ReportEntry>)>, d: Seq<char>)
    requires
        forall|i: int| 0 <= i < files.len() ==> #[trigger] files[i].0@ != d,
    ensures
        entries_for(files, d) == Seq::<ReportEntry>::empty(),
    decreases files.len(),
{
    if files.len() > 0 {
        assert(files.last().0@ != d);
        assert forall|i: int| 0 <= i < files.drop_last().len() implies #[trigger] files.drop_last()[i].0@ != d by {
            assert(files.drop_last()[i] == files[i]);
        }
        lemma_entries_for_absent(files.drop_last(), d);
    }
}

impl UploadReport {
    /// No device is named twice.
    #[verifier::type_invariant]
    closed spec fn well_formed(&self) -> bool {
        forall|a: int, b: int| 0 <= a < b < self.files.len() ==> #[trigger] self.files@[a].0@ != #[trigger] self.files@[b].0@
    }

    /// The entries recorded for `device`.
    pub closed spec fn entries(&self, device: Seq<char>) -> Seq<ReportEntry> {
        entries_for(self.files@, device)
    }

    /// The devices with entries.
    pub closed spec fn devices(&self) -> Set<Seq<char>> {
        devices_of(self.files@)
    }

    /// An empty report.
    pub fn new() -> (r: UploadReport)
        ensures
            r.devices() == Set::<Seq<char>>::empty(),
            forall|d: Seq<char>| r.entries(d) == Seq::<ReportEntry>::empty(),
    {
        let r = UploadReport { files: Vec::new() };
        assert(r.devices() =~= Set::<Seq<char>>::empty());
        r
    }

    /// Attaches an entry to this report, under the device it came from.
    pub fn record_activity(&mut self, entry: ReportEntry)
        ensures
            final(self).devices() == old(self).devices().insert(entry.desc.device_name@),
            final(self).entries(entry.desc.device_name@) == old(self).entries(entry.desc.device_name@).push(entry),
            forall|d: Seq<char>| d != entry.desc.device_name@ ==> final(self).entries(d) == old(self).entries(d),
    {
        proof {
            use_type_invariant(&*self);
        }
        let mut files: Vec<(String, Vec<ReportEntry>)> = Vec::new();
        std::mem::swap(&mut files, &mut self.files);
        let ghost dev = entry.desc.device_name@;
        let ghost before = files@;
        let mut g: usize = 0;
        while g < files.len()
            invariant
                g <= files.len(),
                files@ == before,
                dev == entry.desc.device_name@,
                forall|h: int| 0 <= h < g ==> #[trigger] files@[h].0@ != dev,
            ensures
                g <= files.len(),
                files@ == before,
                forall|h: int| 0 <= h < g ==> #[trigger] files@[h].0@ != dev,
                g < files.len() ==> files@[g as int].0@ == dev,
            decreases files.len() - g,
        {
            if crate::text::same_string(&files[g].0, &entry.desc.device_name) {
                break;
            }
            g = g + 1;
        }
        if g < files.len() {
            let (name, mut list) = files.remove(g);
            let ghost old_list = list@;
            list.push(entry);
            files.insert(g, (name, list));
            proof {
                assert forall|h: int| 0 <= h < files.len() && h != g implies #[trigger] files@[h] == before[h] by {}
                assert(files@[g as int].0@ == dev);
                lemma_entries_for_index(before, g as int);
                lemma_entries_for_index(files@, g as int);
                assert forall|d: Seq<char>| d != dev implies entries_for(files@, d) == entries_for(before, d) by {
                    if exists|h: int| 0 <= h < before.len() && #[trigger] before[h].0@ == d {
                        let h = choose|h: int| 0 <= h < before.len() && #[trigger] before[h].0@ == d;
                        assert(h != g);
                        lemma_entries_for_index(before, h);
                        lemma_entries_for_index(files@, h);
                    } else {
                        lemma_entries_for_absent(before, d);
                        assert forall|h: int| 0 <= h < files.len() implies #[trigger] files@[h].0@ != d by {
                            if h != g {
                                assert(files@[h] == before[h]);
                            }
                        }
                        lemma_entries_for_absent(files@, d);
                    }
                }
                assert(devices_of(files@) =~= devices_of(before).insert(dev)) by {
                    assert forall|d: Seq<char>| devices_of(before).insert(dev).contains(d) implies devices_of(files@).contains(d) by {
                        if d != dev {
                            let h = choose|h: int| 0 <= h < before.len() && #[trigger] before[h].0@ == d;
                            assert(files@[h] == before[h]);
                        }
                    }
                    assert forall|d: Seq<char>| devices_of(files@).contains(d) implies devices_of(before).insert(dev).contains(d) by {
                        let h = choose|h: int| 0 <= h < files.len() && #[trigger] files@[h].0@ == d;
                        if h != g {
                            assert(files@[h] == before[h]);
                        }
                    }
                }
            }
        } else {
            let name = copy_string(&entry.desc.device_name);
            let mut list: Vec<ReportEntry> = Vec::new();
            list.push(entry);
            files.push((name, list));
            proof {
                let n = before.len() as int;
                assert(files@.drop_last() =~= before);
                lemma_entries_for_absent(before, dev);
                assert forall|d: Seq<char>| d != dev implies entries_for(files@, d) == entries_for(before, d) by {
                    assert(files@.last().0@ == dev);
                }
                assert(devices_of(files@) =~= devices_of(before).insert(dev)) by {
                    assert forall|d: Seq<char>| devices_of(before).insert(dev).contains(d) implies devices_of(files@).contains(d) by {
                        if d != dev {
                            let h = choose|h: int| 0 <= h < before.len() && #[trigger] before[h].0@ == d;
                            assert(files@[h] == before[h]);
                        } else {
                            assert(files@[n].0@ == dev);
                        }
                    }
                    assert forall|d: Seq<char>| devices_of(files@).contains(d) implies devices_of(before).insert(dev).contains(d) by {
                        let h = choose|h: int| 0 <= h < files.len() && #[trigger] files@[h].0@ == d;
                        if h < n {
                            assert(files@[h] == before[h]);
                        }
                    }
                }
                assert forall|a: int, b: int| 0 <= a < b < files.len() implies #[trigger] files@[a].0@ != #[trigger] files@[b].0@ by {
                    if b == n {
                        assert(files@[a] == before[a]);
                    } else {
                        assert(files@[a] == before[a]);
                        assert(files@[b] == before[b]);
                    }
                }
            }
        }
        self.files = files;
    }

    /// The devices with entries, with their entries, in the order they were
    /// first recorded.
    pub fn files(&self) -> (f: &Vec<(String, Vec<ReportEntry>)>)
        ensures
            forall|i: int| 0 <= i < f.len() ==> #[trigger] self.devices().contains(f@[i].0@) && self.entries(f@[i].0@) == f@[i].1@,
            forall|d: Seq<char>| #[trigger] self.devices().contains(d) ==> exists|i: int| 0 <= i < f.len() && f@[i].0@ == d,
    {
        proof {
            use_type_invariant(self);
            assert forall|i: int| 0 <= i < self.files.len() implies #[trigger] self.devices().contains(self.files@[i].0@) && self.entries(self.files@[i].0@) == self.files@[i].1@ by {
                lemma_entries_for_index(self.files@, i);
            }
        }
        &self.files
    }
}

} // verus!
