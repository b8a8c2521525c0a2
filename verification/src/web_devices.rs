//! The kinds of device the web service lets a user register, and the forms
//! that register and remove them.

use vstd::prelude::*;

use crate::text::chars_of;

verus! {

/// A kind of device.
#[derive(Debug, PartialEq, Eq, Clone, Copy)]
pub enum DeviceKind {
    Ptp,
    Flysight,
    MassStorage,
}

/// The name of each kind of device.
pub open spec fn kind_name(k: DeviceKind) -> Seq<char> {
    match k {
        DeviceKind::Ptp => "ptp"@,
        DeviceKind::Flysight => "flysight"@,
        DeviceKind::MassStorage => "mass_storage"@,
    }
}

fn same_chars(a: &Vec<char>, b: &Vec<char>) -> (r: bool)
    ensures
        r == (a@ == b@),
{
    if a.len() != b.len() {
        return false;
    }
    let mut i: usize = 0;
    while i < a.len()
        invariant
            a.len() == b.len(),
            i <= a.len(),
            forall|j: int| 0 <= j < i ==> a@[j] == b@[j],
        decreases a.len() - i,
    {
        if a[i] != b[i] {
            return false;
        }
        i = i + 1;
    }
    assert(a@ =~= b@);
    true
}

impl DeviceKind {
    /// The name of this kind of device.
    pub fn name(&self) -> (n: &'static str)
        ensures
            n@ == kind_name(*self),
    {
        match self {
            DeviceKind::Ptp => "ptp",
            DeviceKind::Flysight => "flysight",
            DeviceKind::MassStorage => "mass_storage",
        }
    }

    /// The kind of device with the (already url decoded) name `name`.
    pub fn from_name(name: &str) -> (r: Option<DeviceKind>)
        ensures
            match r {
                Some(k) => kind_name(k) == name@,
                None => forall|k: DeviceKind| kind_name(k) != name@,
            },
    {
        let n = chars_of(name);
        let ptp = chars_of("ptp");
        let fly = chars_of("flysight");
        let ms = chars_of("mass_storage");
        if same_chars(&n, &ptp) {
            Some(DeviceKind::Ptp)
        } else if same_chars(&n, &fly) {
            Some(DeviceKind::Flysight)
        } else if same_chars(&n, &ms) {
            Some(DeviceKind::MassStorage)
        } else {
            proof {
                assert forall|k: DeviceKind| kind_name(k) != name@ by {
                    match k {
                        DeviceKind::Ptp => {},
                        DeviceKind::Flysight => {},
                        DeviceKind::MassStorage => {},
                    }
                }
            }
            None
        }
    }
}

/// The form registering a device.
#[derive(Debug, PartialEq, Eq)]
pub struct DeviceForm {
    pub name: String,
    pub kind: DeviceKind,
    pub identifier: String,
}

/// The form removing a device.
#[derive(Debug, PartialEq, Eq)]
pub struct DeleteDeviceForm {
    pub device_id: i32,
    pub kind: DeviceKind,
}

/// The form inviting a user.
#[derive(Debug, PartialEq, Eq)]
pub struct InviteForm {
    pub email: String,
}

} // verus!
