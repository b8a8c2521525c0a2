//! Which devices are attached and configured: gopros recognised by their
//! configured serial numbers, and the flysights and mass storage devices whose
//! locations are present.

use vstd::prelude::*;

use crate::config::{Config, FlysightConfig, GoproConfig, LocationView, MassStorageConfig, MountableDeviceLocation, entries};
use crate::ptp_device::Gopro;
use crate::text::{copy_string, same_string};

verus! {

/// The name a device's files are filed under.
#[derive(Debug, PartialEq, Eq, Hash)]
pub struct DeviceDescription {
    pub name: String,
}

/// An attached device that has files to stage.
#[derive(Debug, PartialEq, Eq, Hash)]
pub enum Device {
    Gopro(DeviceDescription, Gopro),
    MassStorage(DeviceDescription, MassStorageConfig),
    Flysight(DeviceDescription, FlysightConfig),
}

/// The name of a device.
pub open spec fn device_name(d: Device) -> Seq<char> {
    match d {
        Device::Gopro(desc, _) => desc.name@,
        Device::MassStorage(desc, _) => desc.name@,
        Device::Flysight(desc, _) => desc.name@,
    }
}

impl Device {
    /// The name this device's files are filed under.
    pub fn name(&self) -> (n: &str)
        ensures
            n@ == device_name(*self),
    {
        match self {
            Device::Gopro(desc, _) => desc.name.as_str(),
            Device::MassStorage(desc, _) => desc.name.as_str(),
            Device::Flysight(desc, _) => desc.name.as_str(),
        }
    }
}

/// How a device's files are reached before they are staged.
#[derive(Debug, PartialEq, Eq)]
pub enum StageSource {
    /// Connect to the gopro with this serial number over PTP.
    Ptp { serial: String },
    /// Mount the filesystem found at this location.
    Mount { location: MountableDeviceLocation },
}

/// The text of a stage source: the serial, or the location.
pub enum StageSourceView {
    Ptp(Seq<char>),
    Mount(LocationView),
}

/// How the files of `d` are reached.
pub open spec fn stage_source_of(d: Device) -> StageSourceView {
    match d {
        Device::Gopro(_, g) => StageSourceView::Ptp(g.serial@),
        Device::MassStorage(_, m) => StageSourceView::Mount(m.location@),
        Device::Flysight(_, f) => StageSourceView::Mount(f.location@),
    }
}

impl Device {
    /// What staging this device's files takes: the name they are filed
    /// under, and how they are reached (the gopro connected to by serial, the
    /// card or disk mounted from its location).
    pub fn stage_files(&self) -> (r: (String, StageSource))
        ensures
            r.0@ == device_name(*self),
            match (r.1, stage_source_of(*self)) {
                (StageSource::Ptp { serial }, StageSourceView::Ptp(s)) => serial@ == s,
                (StageSource::Mount { location }, StageSourceView::Mount(l)) => location@ == l,
                _ => false,
            },
    {
        match self {
            Device::Gopro(desc, g) => (copy_string(&desc.name), StageSource::Ptp { serial: copy_string(&g.serial) }),
            Device::MassStorage(desc, m) => (
                copy_string(&desc.name),
                StageSource::Mount { location: m.location.duplicate() },
            ),
            Device::Flysight(desc, f) => (
                copy_string(&desc.name),
                StageSource::Mount { location: f.location.duplicate() },
            ),
        }
    }
}

/// The name configured for the gopro with serial `serial`: the last entry
/// with that serial wins, as when the entries are collected into a map.
pub open spec fn configured_name(cfgs: Seq<GoproConfig>, serial: Seq<char>) -> Option<Seq<char>>
    decreases cfgs.len(),
{
    if cfgs.len() == 0 {
        None
    } else if cfgs.last().serial@ == serial {
        Some(cfgs.last().name@)
    } else {
        configured_name(cfgs.drop_last(), serial)
    }
}

/// The name configured for a serial comes from a configuration entry with
/// that serial, the last such entry; a serial that no entry has gets no name.
pub proof fn law_configured_name(cfgs: Seq<GoproConfig>, serial: Seq<char>)
    ensures
        configured_name(cfgs, serial) is None <==> forall|i: int| 0 <= i < cfgs.len() ==> #[trigger] cfgs[i].serial@ != serial,
        configured_name(cfgs, serial) matches Some(n) ==> exists|i: int|
            0 <= i < cfgs.len() && #[trigger] cfgs[i].serial@ == serial && cfgs[i].name@ == n && forall|j: int|
                i < j < cfgs.len() ==> #[trigger] cfgs[j].serial@ != serial,
    decreases cfgs.len(),
{
    if cfgs.len() > 0 {
        let rest = cfgs.drop_last();
        law_configured_name(rest, serial);
        let last = cfgs.len() - 1;
        if cfgs.last().serial@ == serial {
            assert(cfgs[last].serial@ == serial);
        } else {
            assert forall|i: int| 0 <= i < rest.len() implies #[trigger] rest[i] == cfgs[i] by {}
            if configured_name(rest, serial) is None {
                assert forall|i: int| 0 <= i < cfgs.len() implies #[trigger] cfgs[i].serial@ != serial by {
                    if i < last {
                        assert(rest[i] == cfgs[i]);
                        assert(rest[i].serial@ != serial);
                    }
                }
            } else {
                let n = configured_name(rest, serial)->Some_0;
                let i = choose|i: int|
                    0 <= i < rest.len() && #[trigger] rest[i].serial@ == serial && rest[i].name@ == n && forall|j: int|
                        i < j < rest.len() ==> #[trigger] rest[j].serial@ != serial;
                assert(cfgs[i] == rest[i]);
                assert forall|j: int| i < j < cfgs.len() implies #[trigger] cfgs[j].serial@ != serial by {
                    if j < last {
                        assert(rest[j] == cfgs[j]);
                    }
                }
                assert(exists|k: int| 0 <= k < rest.len() && #[trigger] rest[k].serial@ == serial);
                let k = choose|k: int| 0 <= k < rest.len() && #[trigger] rest[k].serial@ == serial;
                assert(cfgs[k] == rest[k]);
            }
        }
    }
}

/// The gopros found that are configured, in the order found, each with its
/// configured name, model and serial.
pub open spec fn located_gopros(cfgs: Seq<GoproConfig>, found: Seq<Gopro>) -> Seq<(Seq<char>, Gopro)>
    decreases found.len(),
{
    if found.len() == 0 {
        Seq::empty()
    } else {
        let rest = located_gopros(cfgs, found.drop_last());
        match configured_name(cfgs, found.last().serial@) {
            Some(n) => rest.push((n, found.last())),
            None => rest,
        }
    }
}

/// The gopros located are exactly the found gopros whose serial is
/// configured, each under the name configured for its serial.
pub proof fn law_located_gopros(cfgs: Seq<GoproConfig>, found: Seq<Gopro>)
    ensures
        forall|j: int|
            0 <= j < located_gopros(cfgs, found).len() ==> found.contains(#[trigger] located_gopros(cfgs, found)[j].1)
                && configured_name(cfgs, located_gopros(cfgs, found)[j].1.serial@) == Some(
                located_gopros(cfgs, found)[j].0,
            ),
        forall|k: int|
            0 <= k < found.len() && (#[trigger] configured_name(cfgs, found[k].serial@)) is Some
                ==> located_gopros(cfgs, found).contains(
                (configured_name(cfgs, found[k].serial@)->Some_0, found[k]),
            ),
    decreases found.len(),
{
    if found.len() > 0 {
        let rest = found.drop_last();
        law_located_gopros(cfgs, rest);
        let r = located_gopros(cfgs, found);
        let rr = located_gopros(cfgs, rest);
        assert forall|j: int| 0 <= j < r.len() implies found.contains(#[trigger] r[j].1)
            && configured_name(cfgs, r[j].1.serial@) == Some(r[j].0) by {
            if j < rr.len() {
                assert(r[j] == rr[j]);
                let k = choose|k: int| 0 <= k < rest.len() && rest[k] == rr[j].1;
                assert(found[k] == rest[k]);
            } else {
                assert(found[found.len() - 1] == found.last());
            }
        }
        assert forall|k: int|
            0 <= k < found.len() && (#[trigger] configured_name(cfgs, found[k].serial@)) is Some implies r.contains(
            (configured_name(cfgs, found[k].serial@)->Some_0, found[k]),
        ) by {
            if k < rest.len() {
                assert(rest[k] == found[k]);
                let e = (configured_name(cfgs, found[k].serial@)->Some_0, found[k]);
                let j = choose|j: int| 0 <= j < rr.len() && rr[j] == e;
                assert(r[j] == rr[j]);
            } else {
                assert(found[k] == found.last());
                assert(r[r.len() - 1] == (configured_name(cfgs, found[k].serial@)->Some_0, found[k]));
            }
        }
    }
}

/// The located devices as text: name, then the gopro.
pub open spec fn gopro_devices_view(v: Seq<Device>) -> Seq<(Seq<char>, Gopro)> {
    v.map_values(|d: Device| match d {
        Device::Gopro(desc, g) => (desc.name@, g),
        _ => (Seq::empty(), Gopro { kind: crate::ptp_device::GoproKind::UnknownGopro(0), serial: arbitrary() }),
    })
}

/// The configured name for `serial`.
fn name_for_serial(cfgs: &[GoproConfig], serial: &String) -> (r: Option<String>)
    ensures
        match r {
            Some(n) => configured_name(cfgs@, serial@) == Some(n@),
            None => configured_name(cfgs@, serial@) is None,
        },
{
    let mut i = cfgs.len();
    assert(cfgs@.subrange(0, i as int) =~= cfgs@);
    while i > 0
        invariant
            i <= cfgs.len(),
            configured_name(cfgs@, serial@) == configured_name(cfgs@.subrange(0, i as int), serial@),
        decreases i,
    {
        let ghost pre = cfgs@.subrange(0, i as int);
        if same_string(&cfgs[i - 1].serial, serial) {
            assert(pre.last() == cfgs@[i - 1]);
            return Some(copy_string(&cfgs[i - 1].name));
        }
        proof {
            assert(pre.drop_last() =~= cfgs@.subrange(0, i - 1));
        }
        i = i - 1;
    }
    None
}

/// The found gopros that are configured, named by their configured names.
pub fn locate_gopros(cfgs: &[GoproConfig], found: Vec<Gopro>) -> (devices: Vec<Device>)
    ensures
        gopro_devices_view(devices@) == located_gopros(cfgs@, found@),
        forall|i: int| 0 <= i < devices.len() ==> #[trigger] devices@[i] is Gopro,
{
    let mut devices: Vec<Device> = Vec::new();
    let mut rest = found;
    let ghost all = rest@;
    let mut i: usize = 0;
    let n = rest.len();
    while i < n
        invariant
            n == all.len(),
            i <= n,
            rest@ == all.subrange(i as int, n as int),
            gopro_devices_view(devices@) == located_gopros(cfgs@, all.subrange(0, i as int)),
            forall|k: int| 0 <= k < devices.len() ==> #[trigger] devices@[k] is Gopro,
        decreases n - i,
    {
        let g = rest.remove(0);
        proof {
            assert(g == all[i as int]);
            assert(all.subrange(0, i + 1).drop_last() =~= all.subrange(0, i as int));
            assert(all.subrange(0, i + 1).last() == g);
        }
        match name_for_serial(cfgs, &g.serial) {
            Some(name) => {
                let ghost before = devices@;
                devices.push(Device::Gopro(DeviceDescription { name }, g));
                proof {
                    assert(gopro_devices_view(devices@) =~= gopro_devices_view(before).push(
                        (devices@.last()->Gopro_0.name@, devices@.last()->Gopro_1),
                    ));
                }
            },
            None => {},
        }
        i = i + 1;
        proof {
            assert(rest@ =~= all.subrange(i as int, n as int));
        }
    }
    assert(all.subrange(0, n as int) =~= all);
    devices
}

/// The entries of `items` whose flag in `present` is set, in order.
pub open spec fn present_only<T>(items: Seq<T>, present: Seq<bool>) -> Seq<T>
    decreases items.len(),
{
    if items.len() == 0 || present.len() == 0 {
        Seq::empty()
    } else {
        let rest = present_only(items.drop_last(), present.drop_last());
        if present.last() {
            rest.push(items.last())
        } else {
            rest
        }
    }
}

/// The flysights as (name, configuration) text.
pub open spec fn flysight_devices_view(v: Seq<Device>) -> Seq<(Seq<char>, (Seq<char>, crate::config::LocationView))> {
    v.map_values(|d: Device| match d {
        Device::Flysight(desc, f) => (desc.name@, f@),
        _ => (Seq::empty(), arbitrary()),
    })
}

/// The configured flysights that are attached (`attached[i]` says whether
/// the `i`th configured flysight is), each named by its configured name.
pub fn locate_flysights(cfg: &Config, attached: &Vec<bool>) -> (devices: Vec<Device>)
    requires
        attached.len() == entries(cfg.flysight).len(),
    ensures
        flysight_devices_view(devices@) == present_only(
            entries(cfg.flysight).map_values(|f: FlysightConfig| (f.name@, f@)),
            attached@,
        ),
        forall|i: int| 0 <= i < devices.len() ==> #[trigger] devices@[i] is Flysight,
{
    let flysights = cfg.flysights();
    let ghost items = entries(cfg.flysight).map_values(|f: FlysightConfig| (f.name@, f@));
    let mut devices: Vec<Device> = Vec::new();
    let mut i: usize = 0;
    while i < flysights.len()
        invariant
            i <= flysights.len(),
            flysights@ == entries(cfg.flysight),
            attached.len() == flysights.len(),
            items == entries(cfg.flysight).map_values(|f: FlysightConfig| (f.name@, f@)),
            flysight_devices_view(devices@) == present_only(items.subrange(0, i as int), attached@.subrange(0, i as int)),
            forall|k: int| 0 <= k < devices.len() ==> #[trigger] devices@[k] is Flysight,
        decreases flysights.len() - i,
    {
        proof {
            assert(items.subrange(0, i + 1).drop_last() =~= items.subrange(0, i as int));
            assert(attached@.subrange(0, i + 1).drop_last() =~= attached@.subrange(0, i as int));
        }
        if attached[i] {
            let f = flysights[i].duplicate();
            let name = copy_string(&flysights[i].name);
            let ghost before = devices@;
            devices.push(Device::Flysight(DeviceDescription { name }, f));
            proof {
                assert(flysight_devices_view(devices@) =~= flysight_devices_view(before).push(
                    items.subrange(0, i + 1).last(),
                ));
            }
        }
        i = i + 1;
    }
    assert(items.subrange(0, flysights.len() as int) =~= items);
    assert(attached@.subrange(0, flysights.len() as int) =~= attached@);
    devices
}

/// The mass storage devices as (name, configuration) text.
pub open spec fn mass_storage_devices_view(v: Seq<Device>) -> Seq<(Seq<char>, (Seq<char>, crate::config::LocationView, Seq<Seq<char>>, Option<Seq<Seq<char>>>))> {
    v.map_values(|d: Device| match d {
        Device::MassStorage(desc, m) => (desc.name@, m@),
        _ => (Seq::empty(), arbitrary()),
    })
}

/// The configured mass storage devices that are attached (`attached[i]` says
/// whether the `i`th configured one is), each named by its configured name.
pub fn locate_mass_storages(cfg: &Config, attached: &Vec<bool>) -> (devices: Vec<Device>)
    requires
        attached.len() == entries(cfg.mass_storage).len(),
    ensures
        mass_storage_devices_view(devices@) == present_only(
            entries(cfg.mass_storage).map_values(|m: MassStorageConfig| (m.name@, m@)),
            attached@,
        ),
        forall|i: int| 0 <= i < devices.len() ==> #[trigger] devices@[i] is MassStorage,
{
    let list = cfg.mass_storages();
    let ghost items = entries(cfg.mass_storage).map_values(|m: MassStorageConfig| (m.name@, m@));
    let mut devices: Vec<Device> = Vec::new();
    let mut i: usize = 0;
    while i < list.len()
        invariant
            i <= list.len(),
            list@ == entries(cfg.mass_storage),
            attached.len() == list.len(),
            items == entries(cfg.mass_storage).map_values(|m: MassStorageConfig| (m.name@, m@)),
            mass_storage_devices_view(devices@) == present_only(items.subrange(0, i as int), attached@.subrange(0, i as int)),
            forall|k: int| 0 <= k < devices.len() ==> #[trigger] devices@[k] is MassStorage,
        decreases list.len() - i,
    {
        proof {
            assert(items.subrange(0, i + 1).drop_last() =~= items.subrange(0, i as int));
            assert(attached@.subrange(0, i + 1).drop_last() =~= attached@.subrange(0, i as int));
        }
        if attached[i] {
            let m = list[i].duplicate();
            let name = copy_string(&list[i].name);
            let ghost before = devices@;
            devices.push(Device::MassStorage(DeviceDescription { name }, m));
            proof {
                assert(mass_storage_devices_view(devices@) =~= mass_storage_devices_view(before).push(
                    items.subrange(0, i + 1).last(),
                ));
            }
        }
        i = i + 1;
    }
    assert(items.subrange(0, list.len() as int) =~= items);
    assert(attached@.subrange(0, list.len() as int) =~= attached@);
    devices
}

/// All attached devices: the gopros, then the flysights, then the mass
/// storage devices.
pub fn attached_devices(gopros: Vec<Device>, flysights: Vec<Device>, mass_storages: Vec<Device>) -> (all: Vec<Device>)
    ensures
        all@ == gopros@ + flysights@ + mass_storages@,
{
    let mut all = gopros;
    let mut f = flysights;
    let mut m = mass_storages;
    all.append(&mut f);
    all.append(&mut m);
    all
}

} // verus!
