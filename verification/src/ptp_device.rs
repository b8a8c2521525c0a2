//! Gopros reached over USB: recognising them among attached devices, the
//! models known by product id, the files they list, and how their files are
//! read in chunks. The USB and PTP transport lives outside this library.

use vstd::prelude::*;

use crate::staging::{chrono_datetime, parse_datetime, read_as_local, LocalDateTime};
use crate::text::push_str;
use crate::dummy_ptp::{no_support, PtpCamera};

verus! {

/// The USB vendor id of GoPro.
pub const GOPRO_VENDOR: u16 = 0x2672;

/// The manufacturer a gopro reports over PTP.
pub const GOPRO_MANUFACTURER: &'static str = "GoPro";

/// The format gopros report their capture dates in.
pub const GOPRO_DATE_FORMAT: &'static str = "%Y%m%dT%H%M%S";

/// The kinds of object a gopro lists.
#[derive(Debug, PartialEq, Eq, Clone, Copy)]
pub enum GoproObjectFormat {
    Directory,
    Video,
    GetStarted,
}

/// The PTP object format code of each kind of object.
pub open spec fn object_format_code(f: GoproObjectFormat) -> u16 {
    match f {
        GoproObjectFormat::Directory => 0x3001,
        GoproObjectFormat::Video => 0x300d,
        GoproObjectFormat::GetStarted => 0x3005,
    }
}

impl GoproObjectFormat {
    /// The kind of object with PTP format code `format`, if it is one a gopro lists.
    pub fn from_u16(format: u16) -> (r: Option<GoproObjectFormat>)
        ensures
            match r {
                Some(f) => object_format_code(f) == format,
                None => format != 0x3001 && format != 0x300d && format != 0x3005,
            },
    {
        if format == 0x3001 {
            Some(GoproObjectFormat::Directory)
        } else if format == 0x300d {
            Some(GoproObjectFormat::Video)
        } else if format == 0x3005 {
            Some(GoproObjectFormat::GetStarted)
        } else {
            None
        }
    }

    /// The PTP format code of this kind of object.
    pub fn code(&self) -> (c: u16)
        ensures
            c == object_format_code(*self),
    {
        match self {
            GoproObjectFormat::Directory => 0x3001,
            GoproObjectFormat::Video => 0x300d,
            GoproObjectFormat::GetStarted => 0x3005,
        }
    }
}

/// The gopro models, by USB product id.
#[derive(Debug, PartialEq, Eq, Hash, Clone, Copy)]
pub enum GoproKind {
    Hero4Silver,
    Hero4Black,
    Hero4Session,
    Hero2018,
    Hero5Black,
    Hero5Session,
    Hero8Black,
    UnknownGopro(u16),
}

/// The model with USB product id `ty`.
pub open spec fn gopro_kind_of(ty: u16) -> GoproKind {
    if ty == 0x000d {
        GoproKind::Hero4Silver
    } else if ty == 0x000e {
        GoproKind::Hero4Black
    } else if ty == 0x000f {
        GoproKind::Hero4Session
    } else if ty == 0x002d {
        GoproKind::Hero2018
    } else if ty == 0x0027 {
        GoproKind::Hero5Black
    } else if ty == 0x0029 {
        GoproKind::Hero5Session
    } else if ty == 0x0049 {
        GoproKind::Hero8Black
    } else {
        GoproKind::UnknownGopro(ty)
    }
}

impl GoproKind {
    /// The model with USB product id `ty`; ids that are not known give
    /// `UnknownGopro`, so there is always an answer.
    pub fn from_u16(ty: u16) -> (r: Option<GoproKind>)
        ensures
            r == Some(gopro_kind_of(ty)),
    {
        if ty == 0x000d {
            Some(GoproKind::Hero4Silver)
        } else if ty == 0x000e {
            Some(GoproKind::Hero4Black)
        } else if ty == 0x000f {
            Some(GoproKind::Hero4Session)
        } else if ty == 0x002d {
            Some(GoproKind::Hero2018)
        } else if ty == 0x0027 {
            Some(GoproKind::Hero5Black)
        } else if ty == 0x0029 {
            Some(GoproKind::Hero5Session)
        } else if ty == 0x0049 {
            Some(GoproKind::Hero8Black)
        } else {
            Some(GoproKind::UnknownGopro(ty))
        }
    }
}

/// Whether a USB device's vendor is GoPro: only such devices are asked for
/// their PTP device information.
pub fn is_gopro_vendor(vendor_id: u16) -> (r: bool)
    ensures
        r == (vendor_id == GOPRO_VENDOR),
{
    vendor_id == GOPRO_VENDOR
}

/// The model of a USB device from GoPro, given the manufacturer its PTP
/// device information reports and its product id: none unless the
/// manufacturer is GoPro.
pub fn gopro_kind_for(manufacturer: &str, product_id: u16) -> (r: Option<GoproKind>)
    ensures
        r == if manufacturer@ == GOPRO_MANUFACTURER@ { Some(gopro_kind_of(product_id)) } else { None },
{
    let m = crate::text::chars_of(manufacturer);
    let g = crate::text::chars_of(GOPRO_MANUFACTURER);
    let same = m.len() == g.len() && crate::text::chars_start_with(&m, &g);
    proof {
        if same {
            assert(m@ =~= m@.subrange(0, g@.len() as int));
        }
        if m@ == g@ {
            assert(m@.subrange(0, g@.len() as int) =~= m@);
        }
    }
    if same {
        GoproKind::from_u16(product_id)
    } else {
        None
    }
}

/// A gopro found on the USB bus.
#[derive(Debug, PartialEq, Eq, Hash)]
pub struct Gopro {
    pub kind: GoproKind,
    pub serial: String,
}

impl Gopro {
    /// A gopro of the given model and serial number.
    pub fn new(kind: GoproKind, serial: String) -> (g: Gopro)
        ensures
            g.kind == kind,
            g.serial == serial,
    {
        Gopro { kind, serial }
    }
}

/// What a gopro reports about one of its objects.
#[derive(Debug, PartialEq, Eq)]
#[allow(non_snake_case)]
pub struct ObjectInfo {
    pub CaptureDate: String,
    pub ObjectCompressedSize: u32,
    pub ObjectFormat: u16,
}

/// A video on a gopro, and how far it has been read.
#[derive(Debug, PartialEq, Eq)]
pub struct GoproFile {
    pub capturedate: String,
    pub handle: u32,
    pub offset: u32,
    pub size: u32,
}

/// Reads a gopro capture date, `YYYYmmddTHHMMSS`.
pub fn parse_gopro_date(date: &str) -> (r: Option<LocalDateTime>)
    ensures
        read_as_local(r, chrono_datetime(date@, GOPRO_DATE_FORMAT@)),
{
    parse_datetime(date, GOPRO_DATE_FORMAT)
}

impl GoproFile {
    /// The file for the object `handle`, described by `info`, not yet read.
    /// Only videos are listed, so `info` must describe one.
    pub fn from_object(handle: u32, info: ObjectInfo) -> (f: GoproFile)
        requires
            info.ObjectFormat == object_format_code(GoproObjectFormat::Video),
        ensures
            f.capturedate == info.CaptureDate,
            f.handle == handle,
            f.offset == 0,
            f.size == info.ObjectCompressedSize,
    {
        GoproFile { capturedate: info.CaptureDate, handle, offset: 0, size: info.ObjectCompressedSize }
    }

    /// Gopro files are videos.
    pub fn extension(&self) -> (e: &'static str)
        ensures
            e@ == "mp4"@,
    {
        "mp4"
    }

    /// When the video was captured.
    pub fn capture_datetime(&self) -> (r: Option<LocalDateTime>)
        ensures
            read_as_local(r, chrono_datetime(self.capturedate@, GOPRO_DATE_FORMAT@)),
    {
        parse_gopro_date(self.capturedate.as_str())
    }

    /// The size of the video in bytes.
    pub fn size(&self) -> (s: u64)
        ensures
            s == self.size,
    {
        self.size as u64
    }

    /// How many bytes the next read asks the camera for, given a buffer of
    /// `buf_len` bytes: the buffer's length, cut to what is left of the file
    /// when the buffer reaches past its end.
    pub fn chunk_len(&self, buf_len: usize) -> (n: usize)
        requires
            self.offset + (buf_len as u32) <= u32::MAX,
            self.offset + (buf_len as u32) > self.size ==> self.offset <= self.size,
        ensures
            n == if self.offset + (buf_len as u32) > self.size { (self.size - self.offset) as usize } else { buf_len },
    {
        let mut size = buf_len;
        if self.offset + (size as u32) > self.size {
            size = (self.size - self.offset) as usize;
        }
        size
    }

    /// Records that `got` more bytes were read.
    pub fn advance(&mut self, got: usize)
        requires
            old(self).offset + got <= u32::MAX,
        ensures
            final(self).offset == old(self).offset + got,
            final(self).size == old(self).size,
            final(self).handle == old(self).handle,
            final(self).capturedate == old(self).capturedate,
    {
        self.offset = self.offset + (got as u32);
    }
}

/// The videos on a gopro, given each object handle the camera listed (asked
/// for videos only) and what the camera reports about it, in listing order.
pub fn gopro_files(objects: Vec<(u32, ObjectInfo)>) -> (files: Vec<GoproFile>)
    requires
        forall|i: int|
            0 <= i < objects@.len() ==> (#[trigger] objects@[i]).1.ObjectFormat == object_format_code(
                GoproObjectFormat::Video,
            ),
    ensures
        files@.len() == objects@.len(),
        forall|i: int|
            0 <= i < files@.len() ==> (#[trigger] files@[i]).handle == objects@[i].0 && files@[i].capturedate
                == objects@[i].1.CaptureDate && files@[i].size == objects@[i].1.ObjectCompressedSize
                && files@[i].offset == 0,
{
    let ghost listed = objects@;
    let mut rest = objects;
    let mut files: Vec<GoproFile> = Vec::new();
    let n = rest.len();
    while rest.len() > 0
        invariant
            n == listed.len(),
            files@.len() + rest@.len() == n,
            rest@ == listed.subrange(files@.len() as int, n as int),
            forall|i: int|
                0 <= i < listed.len() ==> (#[trigger] listed[i]).1.ObjectFormat == object_format_code(
                    GoproObjectFormat::Video,
                ),
            forall|i: int|
                0 <= i < files@.len() ==> (#[trigger] files@[i]).handle == listed[i].0 && files@[i].capturedate
                    == listed[i].1.CaptureDate && files@[i].size == listed[i].1.ObjectCompressedSize
                    && files@[i].offset == 0,
        decreases rest.len(),
    {
        let (handle, info) = rest.remove(0);
        proof {
            assert(listed[files@.len() as int] == (handle, info));
        }
        let ghost before = files@;
        files.push(GoproFile::from_object(handle, info));
        proof {
            assert(rest@ =~= listed.subrange(files@.len() as int, n as int));
            assert forall|i: int| 0 <= i < files@.len() implies (#[trigger] files@[i]).handle == listed[i].0
                && files@[i].capturedate == listed[i].1.CaptureDate && files@[i].size
                == listed[i].1.ObjectCompressedSize && files@[i].offset == 0 by {
                if i < before.len() {
                    assert(files@[i] == before[i]);
                }
            }
        }
    }
    files
}


/// A session with a gopro's camera.
#[derive(Debug)]
pub struct GoproConnection {
    pub gopro: Gopro,
    pub camera: PtpCamera,
}

impl GoproConnection {
    /// The videos on the camera: asks it for the handles of its videos, then
    /// for what it reports of each, in listing order. A camera error is
    /// returned as the error, as is an object that is not a video. With the
    /// stand-in camera of this build, the listing fails.
    pub fn files(&mut self) -> (r: Result<Vec<GoproFile>, String>)
        ensures
            no_support(r),
    {
        let video = GoproObjectFormat::Video.code();
        let handles = match self.camera.get_objecthandles_all(0xFFFF_FFFF, Some(video as u32)) {
            Ok(h) => h,
            Err(e) => return Err(e),
        };
        let mut objects: Vec<(u32, ObjectInfo)> = Vec::new();
        let mut i: usize = 0;
        while i < handles.len()
            invariant
                i <= handles.len(),
                forall|k: int|
                    0 <= k < objects@.len() ==> (#[trigger] objects@[k]).1.ObjectFormat == object_format_code(
                        GoproObjectFormat::Video,
                    ),
            decreases handles.len() - i,
        {
            let info = match self.camera.get_objectinfo(handles[i]) {
                Ok(info) => info,
                Err(e) => return Err(e),
            };
            if info.ObjectFormat != video {
                return Err("The camera listed an object that is not a video".to_owned());
            }
            objects.push((handles[i], info));
            i = i + 1;
        }
        Ok(gopro_files(objects))
    }
}

} // verus!
