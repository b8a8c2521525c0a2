//! Flysight logs: which entries of a mounted card are logs, what they are
//! called once staged, when they were captured, and the order they are staged
//! in.

use vstd::prelude::*;
use vstd::multiset::Multiset;

use crate::config::FlysightConfig;
use crate::mountable::MountedFilesystem;
use crate::staging::{chrono_datetime, datetime_of, parse_datetime, read_as_local, LocalDateTime, RemotePathDescriptor};
use crate::text::{
    chars_less, chars_lt, chars_of, copy_string, cut_tail_bytes, drop_tail_bytes, lemma_chars_lt_total,
    lemma_chars_lt_trans, push_str, string_of,
};

verus! {

/// The names of the directories a Flysight files its logs under (`YY-MM-DD`).
pub const DATE_PATTERN: &'static str = "(?P<year>\\d{2})-(?P<month>\\d{2})-(?P<day>\\d{2})";

/// The names of the logs themselves (`HH-MM-SS.CSV`).
pub const ENTRY_PATTERN: &'static str = "(?P<hour>\\d{2})-(?P<min>\\d{2})-(?P<second>\\d{2}).[cC][sS][vV]";

/// The format a log's directory and name are read as a date and time with.
pub const CAPTURE_FORMAT: &'static str = "%y-%m-%d/%H-%M-%S";

/// Whether `regex::bytes::Regex::is_match` finds `pattern` somewhere in the
/// UTF-8 bytes of `text` (false when the pattern does not compile).
pub uninterp spec fn bytes_regex_matches(pattern: Seq<char>, text: Seq<char>) -> bool;

/// Builds a `regex::bytes::Regex` from `pattern` and calls `is_match` on the
/// bytes of `text`. Trusted to depend on its arguments alone (named by
/// `bytes_regex_matches`); what the expression means is not stated.
#[verifier::external_body]
fn bytes_regex_is_match(pattern: &str, text: &str) -> (r: bool)
    ensures
        r == bytes_regex_matches(pattern@, text@),
{
    match regex::bytes::Regex::new(pattern) {
        Ok(re) => re.is_match(text.as_bytes()),
        Err(_) => false,
    }
}

/// A log found on a Flysight: the name of its date directory, its own name
/// without the `.csv`, and where it is.
#[derive(Debug, PartialEq, Eq)]
pub struct FlysightFile {
    pub capturedate: String,
    pub capturetime: String,
    pub source_path: String,
}

/// A log as text: date directory, time, path.
pub type FlysightView = (Seq<char>, Seq<char>, Seq<char>);

/// The text of a log.
pub open spec fn file_view(f: FlysightFile) -> FlysightView {
    (f.capturedate@, f.capturetime@, f.source_path@)
}

/// The text of each log, in order.
pub open spec fn views(s: Seq<FlysightFile>) -> Seq<FlysightView> {
    s.map_values(|f: FlysightFile| file_view(f))
}

/// Whether log `a` sorts strictly before log `b`: by date directory, then by
/// time, each compared as strings are.
pub open spec fn capture_lt(a: FlysightView, b: FlysightView) -> bool {
    chars_lt(a.0, b.0) || (a.0 == b.0 && chars_lt(a.1, b.1))
}

/// Logs in capture order.
pub open spec fn sorted_by_capture(s: Seq<FlysightView>) -> bool {
    forall|i: int, j: int| 0 <= i < j < s.len() ==> !capture_lt(#[trigger] s[j], #[trigger] s[i])
}

/// Logs in capture order come by date directory, as strings compare, and
/// within one date directory by time.
pub proof fn law_capture_order(s: Seq<FlysightView>)
    requires
        sorted_by_capture(s),
    ensures
        forall|i: int, j: int| 0 <= i < j < s.len() ==> !chars_lt(#[trigger] s[j].0, #[trigger] s[i].0),
        forall|i: int, j: int| 0 <= i < j < s.len() && s[i].0 == s[j].0 ==> !chars_lt(#[trigger] s[j].1, #[trigger] s[i].1),
{
    assert forall|i: int, j: int| 0 <= i < j < s.len() implies !chars_lt(#[trigger] s[j].0, #[trigger] s[i].0) by {
        assert(!capture_lt(s[j], s[i]));
    }
    assert forall|i: int, j: int| 0 <= i < j < s.len() && s[i].0 == s[j].0 implies !chars_lt(#[trigger] s[j].1, #[trigger] s[i].1) by {
        assert(!capture_lt(s[j], s[i]));
    }
}

proof fn lemma_capture_lt_trans(a: FlysightView, b: FlysightView, c: FlysightView)
    requires
        capture_lt(a, b),
        capture_lt(b, c),
    ensures
        capture_lt(a, c),
{
    if chars_lt(a.0, b.0) && chars_lt(b.0, c.0) {
        lemma_chars_lt_trans(a.0, b.0, c.0);
    } else if a.0 == b.0 && b.0 == c.0 {
        lemma_chars_lt_trans(a.1, b.1, c.1);
    }
}

proof fn lemma_capture_lt_asym(a: FlysightView, b: FlysightView)
    ensures
        capture_lt(a, b) ==> !capture_lt(b, a),
{
    lemma_chars_lt_total(a.0, b.0);
    lemma_chars_lt_total(a.1, b.1);
}

/// Whether `a` sorts strictly before `b`.
fn capture_less(a: &FlysightFile, b: &FlysightFile) -> (r: bool)
    ensures
        r == capture_lt(file_view(*a), file_view(*b)),
{
    let ad = chars_of(a.capturedate.as_str());
    let bd = chars_of(b.capturedate.as_str());
    if chars_less(&ad, &bd) {
        return true;
    }
    if chars_less(&bd, &ad) {
        proof {
            lemma_chars_lt_total(ad@, bd@);
        }
        return false;
    }
    proof {
        lemma_chars_lt_total(ad@, bd@);
    }
    let at = chars_of(a.capturetime.as_str());
    let bt = chars_of(b.capturetime.as_str());
    chars_less(&at, &bt)
}

/// Puts logs in capture order (the order among logs with the same date and
/// time is not fixed).
pub fn sort_by_capture(files: Vec<FlysightFile>) -> (out: Vec<FlysightFile>)
    ensures
        views(out@).to_multiset() == views(files@).to_multiset(),
        sorted_by_capture(views(out@)),
{
    broadcast use vstd::seq_lib::group_to_multiset_ensures;
    broadcast use vstd::multiset::group_multiset_axioms;

    let mut rest = files;
    let mut out: Vec<FlysightFile> = Vec::new();
    assert(views(out@) =~= Seq::<FlysightView>::empty());
    assert(views(out@).to_multiset() =~= Multiset::<FlysightView>::empty());
    while rest.len() > 0
        invariant
            views(out@).to_multiset().add(views(rest@).to_multiset()) == views(files@).to_multiset(),
            sorted_by_capture(views(out@)),
        decreases rest.len(),
    {
        let ghost before = rest@;
        let x = rest.pop().unwrap();
        proof {
            assert(before =~= rest@.push(x));
            assert(views(before) =~= views(rest@).push(file_view(x)));
            vstd::seq_lib::to_multiset_build(views(rest@), file_view(x));
        }
        let mut p: usize = 0;
        while p < out.len() && !capture_less(&x, &out[p])
            invariant
                p <= out.len(),
                forall|i: int| 0 <= i < p ==> !capture_lt(file_view(x), #[trigger] views(out@)[i]),
            decreases out.len() - p,
        {
            p = p + 1;
        }
        let ghost old_out = out@;
        out.insert(p, x);
        proof {
            let s = views(out@);
            let o = views(old_out);
            let v = file_view(x);
            assert(s =~= o.insert(p as int, v));
            assert forall|i: int, j: int| 0 <= i < j < s.len() implies !capture_lt(#[trigger] s[j], #[trigger] s[i]) by {
                if i == p && j > p {
                    lemma_capture_lt_asym(o[j - 1], v);
                    if capture_lt(o[j - 1], v) {
                        lemma_capture_lt_trans(o[j - 1], v, o[p as int]);
                        lemma_capture_lt_asym(o[p as int], v);
                    }
                } else if i < p && j > p {
                    assert(s[i] == o[i] && s[j] == o[j - 1]);
                } else if i > p {
                    assert(s[i] == o[i - 1] && s[j] == o[j - 1]);
                }
            }
            vstd::seq_lib::to_multiset_insert(o, p as int, v);
            assert(s.to_multiset() == o.to_multiset().insert(v));
            assert(s.to_multiset().add(views(rest@).to_multiset()) =~= o.to_multiset().add(
                views(rest@).to_multiset().insert(v),
            ));
        }
    }
    assert(views(rest@) =~= Seq::<FlysightView>::empty());
    out
}

/// An entry of a directory on the card.
#[derive(Debug)]
pub struct ListedFile {
    pub name: String,
    pub is_file: bool,
    pub path: String,
}

/// An entry at the top of the card, with the entries inside it when it is a
/// directory.
#[derive(Debug)]
pub struct ListedDir {
    pub name: String,
    pub is_dir: bool,
    pub files: Vec<ListedFile>,
}

/// Whether a top-level entry is a date directory logs are looked for in.
pub open spec fn is_date_dir(d: ListedDir) -> bool {
    d.is_dir && bytes_regex_matches(DATE_PATTERN@, d.name@)
}

/// Whether an entry of a date directory is a log.
pub open spec fn is_log(f: ListedFile) -> bool {
    f.is_file && bytes_regex_matches(ENTRY_PATTERN@, f.name@)
}

/// Every log's name can have its last four bytes (the `.csv`) cut off.
pub open spec fn logs_cuttable(ds: Seq<ListedDir>) -> bool {
    forall|i: int, j: int|
        0 <= i < ds.len() && is_date_dir(ds[i]) && 0 <= j < ds[i].files@.len() && is_log(
            #[trigger] ds[i].files@[j],
        ) ==> drop_tail_bytes(ds[i].files@[j].name@, 4) is Some
}

/// The logs in the given entries of the directory named `date`.
pub open spec fn logs_in(date: Seq<char>, fs: Seq<ListedFile>) -> Seq<FlysightView>
    decreases fs.len(),
{
    if fs.len() == 0 {
        Seq::empty()
    } else {
        let f = fs.last();
        logs_in(date, fs.drop_last()) + if is_log(f) {
            seq![(date, drop_tail_bytes(f.name@, 4)->0, f.path@)]
        } else {
            Seq::empty()
        }
    }
}

/// The logs found in the given top-level entries, in listing order.
pub open spec fn listed_logs(ds: Seq<ListedDir>) -> Seq<FlysightView>
    decreases ds.len(),
{
    if ds.len() == 0 {
        Seq::empty()
    } else {
        let d = ds.last();
        listed_logs(ds.drop_last()) + if is_date_dir(d) {
            logs_in(d.name@, d.files@)
        } else {
            Seq::empty()
        }
    }
}

impl FlysightFile {
    /// The log called `file_name` in the directory `capturedate`: its time is
    /// the name with the last four bytes (the `.csv`) cut off.
    pub fn new(capturedate: String, file_name: &str, source_path: String) -> (f: FlysightFile)
        requires
            drop_tail_bytes(file_name@, 4) is Some,
        ensures
            f.capturedate == capturedate,
            f.capturetime@ == drop_tail_bytes(file_name@, 4)->0,
            f.source_path == source_path,
    {
        let name = chars_of(file_name);
        let time = cut_tail_bytes(&name, 4).unwrap();
        FlysightFile { capturedate, capturetime: string_of(&time), source_path }
    }

    /// The extension logs are staged with.
    pub fn extension(&self) -> (e: &'static str)
        ensures
            e@ == "csv"@,
    {
        proof {
            reveal_strlit("csv");
        }
        "csv"
    }

    /// When the log was captured: its directory and name read as
    /// `YY-MM-DD/HH-MM-SS`.
    pub fn capture_datetime(&self) -> (r: Option<LocalDateTime>)
        ensures
            read_as_local(r, chrono_datetime(self.capturedate@ + seq!['/'] + self.capturetime@, CAPTURE_FORMAT@)),
    {
        let mut text = copy_string(&self.capturedate);
        text.push('/');
        push_str(&mut text, self.capturetime.as_str());
        assert(text@ =~= self.capturedate@ + seq!['/'] + self.capturetime@);
        parse_datetime(text.as_str(), CAPTURE_FORMAT)
    }
}

impl FlysightFile {
    /// Where the log is filed upstream: by its capture time, as a `csv`;
    /// nothing when its directory and name do not read as a date and time.
    pub fn remote_path(&self) -> (r: Option<RemotePathDescriptor>)
        ensures
            match chrono_datetime(self.capturedate@ + seq!['/'] + self.capturetime@, CAPTURE_FORMAT@) {
                Some(t) => r is None || (r matches Some(RemotePathDescriptor::DateTime { capture_time, extension })
                    && capture_time == datetime_of(t) && extension@ == "csv"@),
                None => r is None,
            },
    {
        match self.capture_datetime() {
            Some(capture_time) => {
                let extension = self.extension().to_owned();
                Some(RemotePathDescriptor::DateTime { capture_time, extension })
            },
            None => None,
        }
    }
}

/// A Flysight whose card is mounted.
#[derive(Debug)]
pub struct MountedFlysight {
    pub flysight: FlysightConfig,
    pub mount: MountedFilesystem,
}

impl MountedFlysight {
    /// The Flysight `this` mounted as `mount`.
    pub fn from_mounted_parts(this: FlysightConfig, mount: MountedFilesystem) -> (m: MountedFlysight)
        ensures
            m.flysight == this,
            m.mount == mount,
    {
        MountedFlysight { flysight: this, mount }
    }

    /// Whether a top-level entry of the card is a directory logs are looked
    /// for in.
    pub fn is_date_dir(name: &str, is_dir: bool) -> (r: bool)
        ensures
            r == (is_dir && bytes_regex_matches(DATE_PATTERN@, name@)),
    {
        is_dir && bytes_regex_is_match(DATE_PATTERN, name)
    }

    /// The logs on the card, given its listing, in capture order; nothing
    /// when a log's name cannot have its `.csv` cut off at a character
    /// boundary.
    pub fn files(&self, listing: &Vec<ListedDir>) -> (r: Option<Vec<FlysightFile>>)
        ensures
            match r {
                Some(out) => logs_cuttable(listing@) && views(out@).to_multiset() == listed_logs(
                    listing@,
                ).to_multiset() && sorted_by_capture(views(out@)),
                None => !logs_cuttable(listing@),
            },
    {
        if !all_logs_cuttable(listing) {
            return None;
        }
        let found = collect_logs(listing);
        Some(sort_by_capture(found))
    }
}

/// Whether every log on the card can have its `.csv` cut off.
fn all_logs_cuttable(listing: &Vec<ListedDir>) -> (r: bool)
    ensures
        r == logs_cuttable(listing@),
{
    let mut i: usize = 0;
    while i < listing.len()
        invariant
            i <= listing.len(),
            forall|a: int, j: int|
                0 <= a < i && is_date_dir(listing@[a]) && 0 <= j < listing@[a].files@.len() && is_log(
                    #[trigger] listing@[a].files@[j],
                ) ==> drop_tail_bytes(listing@[a].files@[j].name@, 4) is Some,
        decreases listing.len() - i,
    {
        let d = &listing[i];
        if MountedFlysight::is_date_dir(d.name.as_str(), d.is_dir) {
            let mut j: usize = 0;
            while j < d.files.len()
                invariant
                    i < listing.len(),
                    d == listing@[i as int],
                    is_date_dir(*d),
                    j <= d.files.len(),
                    forall|a: int, k: int|
                        0 <= a < i && is_date_dir(listing@[a]) && 0 <= k < listing@[a].files@.len() && is_log(
                            #[trigger] listing@[a].files@[k],
                        ) ==> drop_tail_bytes(listing@[a].files@[k].name@, 4) is Some,
                    forall|k: int|
                        0 <= k < j && is_log(#[trigger] d.files@[k]) ==> drop_tail_bytes(d.files@[k].name@, 4) is Some,
                decreases d.files.len() - j,
            {
                let f = &d.files[j];
                if f.is_file && bytes_regex_is_match(ENTRY_PATTERN, f.name.as_str()) {
                    let name = chars_of(f.name.as_str());
                    if cut_tail_bytes(&name, 4).is_none() {
                        return false;
                    }
                }
                j = j + 1;
            }
        }
        i = i + 1;
    }
    true
}

/// The logs on the card, in listing order.
fn collect_logs(listing: &Vec<ListedDir>) -> (out: Vec<FlysightFile>)
    requires
        logs_cuttable(listing@),
    ensures
        views(out@) == listed_logs(listing@),
{
    let mut out: Vec<FlysightFile> = Vec::new();
    let mut i: usize = 0;
    while i < listing.len()
        invariant
            i <= listing.len(),
            logs_cuttable(listing@),
            views(out@) == listed_logs(listing@.take(i as int)),
        decreases listing.len() - i,
    {
        let d = &listing[i];
        proof {
            assert(listing@.take(i + 1).drop_last() =~= listing@.take(i as int));
        }
        if MountedFlysight::is_date_dir(d.name.as_str(), d.is_dir) {
            let ghost base = views(out@);
            let mut j: usize = 0;
            while j < d.files.len()
                invariant
                    i < listing.len(),
                    d == listing@[i as int],
                    is_date_dir(*d),
                    logs_cuttable(listing@),
                    j <= d.files.len(),
                    views(out@) == base + logs_in(d.name@, d.files@.take(j as int)),
                decreases d.files.len() - j,
            {
                let f = &d.files[j];
                proof {
                    assert(d.files@.take(j + 1).drop_last() =~= d.files@.take(j as int));
                    assert(d.files@.take(j + 1).last() == d.files@[j as int]);
                }
                if f.is_file && bytes_regex_is_match(ENTRY_PATTERN, f.name.as_str()) {
                    proof {
                        assert(is_log(listing@[i as int].files@[j as int]));
                    }
                    let ghost before = out@;
                    let file = FlysightFile::new(copy_string(&d.name), f.name.as_str(), copy_string(&f.path));
                    out.push(file);
                    proof {
                        assert(views(out@) =~= views(before).push(file_view(file)));
                    }
                } else {
                    proof {
                        assert(!is_log(d.files@[j as int]));
                    }
                }
                j = j + 1;
                proof {
                    assert(views(out@) =~= base + logs_in(d.name@, d.files@.take(j as int)));
                }
            }
            proof {
                assert(d.files@.take(d.files.len() as int) =~= d.files@);
                assert(views(out@) =~= listed_logs(listing@.take(i + 1)));
            }
        } else {
            proof {
                assert(!is_date_dir(listing@[i as int]));
                assert(views(out@) =~= listed_logs(listing@.take(i + 1)));
            }
        }
        i = i + 1;
    }
    assert(listing@.take(listing.len() as int) =~= listing@);
    out
}

} // verus!
