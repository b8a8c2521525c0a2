//! The USB context used when the library is built without USB support: it
//! can be made, but it lists no devices.

use vstd::prelude::*;

verus! {

/// Why a call on the USB stand-in fails.
pub const NO_USB_SUPPORT: &'static str = "You shouldn't be calling methods from dummy_libusb";

/// A USB context with no devices behind it.
#[derive(Debug, PartialEq, Eq)]
pub struct Context;

/// A USB device, as the stand-in describes one.
#[derive(Debug, PartialEq, Eq)]
pub struct Device {
    pub vendor_id: u16,
    pub product_id: u16,
}

/// The descriptor of a USB device: its vendor and product ids.
#[derive(Debug, PartialEq, Eq)]
pub struct Descriptor {
    pub vendor_id: u16,
    pub product_id: u16,
}

impl Context {
    /// A new context; making one always succeeds.
    pub fn new() -> (r: Result<Context, String>)
        ensures
            r is Ok,
    {
        Ok(Context)
    }

    /// Listing devices is not supported without USB support: it always
    /// fails, with the reason.
    pub fn devices(&self) -> (r: Result<Vec<Device>, String>)
        ensures
            r is Err,
            r->Err_0@ == NO_USB_SUPPORT@,
    {
        Err(NO_USB_SUPPORT.to_owned())
    }
}

impl Device {
    /// The device's descriptor.
    pub fn device_descriptor(&self) -> (r: Result<Descriptor, String>)
        ensures
            r == Ok::<Descriptor, String>(Descriptor { vendor_id: self.vendor_id, product_id: self.product_id }),
    {
        Ok(Descriptor { vendor_id: self.vendor_id, product_id: self.product_id })
    }
}

impl Descriptor {
    /// The product id.
    pub fn product_id(&self) -> (id: u16)
        ensures
            id == self.product_id,
    {
        self.product_id
    }

    /// The vendor id.
    pub fn vendor_id(&self) -> (id: u16)
        ensures
            id == self.vendor_id,
    {
        self.vendor_id
    }
}

} // verus!
