//! The PTP camera used when the library is built without USB support: every
//! operation on it fails, with the reason.

use vstd::prelude::*;

pub use crate::ptp_device::ObjectInfo;

verus! {

/// Why an operation on the PTP stand-in fails.
pub const NO_PTP_SUPPORT: &'static str = "You shouldn't be calling methods from dummy_ptp";

/// A PTP camera that cannot be talked to.
#[derive(Debug, PartialEq, Eq)]
pub struct PtpCamera;

/// The failure every operation on the stand-in reports.
pub open spec fn no_support<T>(r: Result<T, String>) -> bool {
    r is Err && r->Err_0@ == NO_PTP_SUPPORT@
}

impl PtpCamera {
    /// Deleting an object fails.
    pub fn delete_object(&mut self, handle: u32) -> (r: Result<(), String>)
        ensures
            no_support(r),
    {
        Err(NO_PTP_SUPPORT.to_owned())
    }

    /// Reading part of an object fails.
    pub fn get_partialobject(&mut self, handle: u32, offset: u32, len: u32) -> (r: Result<Vec<u8>, String>)
        ensures
            no_support(r),
    {
        Err(NO_PTP_SUPPORT.to_owned())
    }

    /// Listing objects fails.
    pub fn get_objecthandles_all(&mut self, storage: u32, format: Option<u32>) -> (r: Result<Vec<u32>, String>)
        ensures
            no_support(r),
    {
        Err(NO_PTP_SUPPORT.to_owned())
    }

    /// Describing an object fails.
    pub fn get_objectinfo(&mut self, handle: u32) -> (r: Result<ObjectInfo, String>)
        ensures
            no_support(r),
    {
        Err(NO_PTP_SUPPORT.to_owned())
    }

    /// Closing the session fails.
    pub fn close_session(&mut self) -> (r: Result<(), String>)
        ensures
            no_support(r),
    {
        Err(NO_PTP_SUPPORT.to_owned())
    }

    /// Powering the camera down fails.
    pub fn power_down(&mut self) -> (r: Result<(), String>)
        ensures
            no_support(r),
    {
        Err(NO_PTP_SUPPORT.to_owned())
    }
}

} // verus!
