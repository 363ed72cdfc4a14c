//! Decisions about BlueZ objects: which managed objects are adapters or devices, what an
//! added object calls for, how a tracked device is described, and what a property
//! change of a device carries.
use vstd::prelude::*;

use crate::addr::string_views;
use crate::reading::{manufacturer_view, first_reading, from_manuf, SensorReading};
use crate::text::text_eq;

verus! {

/// How BlueZ discovers devices.
#[derive(PartialEq, Eq, Structural, Clone, Copy, Debug)]
pub enum Transport {
    /// `auto`: interleaved scan.
    Auto,
    /// `bredr`: BR/EDR inquiry.
    Bredr,
    /// `le`: LE scan only.
    Le,
}

/// The discovery filter of a BlueZ adapter.
#[derive(PartialEq, Debug)]
pub struct DiscoveryFilter {
    /// Service UUIDs to look for (`UUIDs`).
    pub uuids: Vec<String>,
    /// RSSI threshold (`RSSI`).
    pub rssi: i16,
    /// Pathloss threshold (`Pathloss`).
    pub pathloss: i16,
    /// Type of scan (`Transport`).
    pub transport: Transport,
    /// Whether to report repeated advertisements (`DuplicateData`), true by default.
    pub duplicatedata: bool,
    /// Whether to make the adapter discoverable meanwhile (`Discoverable`), false by default.
    pub discoverable: bool,
    /// Prefix of address or name to match (`Pattern`); empty matches all.
    pub pattern: Option<String>,
}

/// The D-Bus interface of a BlueZ adapter.
pub open spec fn adapter_interface() -> Seq<char> {
    "org.bluez.Adapter1"@
}

/// The D-Bus interface of a BlueZ device.
pub open spec fn device_interface() -> Seq<char> {
    "org.bluez.Device1"@
}

/// A managed object: its path and the names of its interfaces.
pub type ManagedObject = (String, Vec<String>);

/// The texts of the managed objects.
pub open spec fn objects_view(m: Seq<ManagedObject>) -> Seq<(Seq<char>, Seq<Seq<char>>)> {
    m.map_values(|o: ManagedObject| (o.0@, string_views(o.1@)))
}

/// How often a name occurs in a list of names.
pub open spec fn occurrences(names: Seq<Seq<char>>, name: Seq<char>) -> nat
    decreases names.len(),
{
    if names.len() == 0 {
        0
    } else {
        occurrences(names.drop_last(), name) + if names.last() == name {
            1nat
        } else {
            0nat
        }
    }
}

/// The path of each object once for every adapter interface among its interfaces, in
/// the order of the objects.
pub open spec fn adapter_paths_of(m: Seq<(Seq<char>, Seq<Seq<char>>)>) -> Seq<Seq<char>>
    decreases m.len(),
{
    if m.len() == 0 {
        seq![]
    } else {
        adapter_paths_of(m.drop_last()) + Seq::new(
            occurrences(m.last().1, adapter_interface()),
            |_i: int| m.last().0,
        )
    }
}

/// The path of each object that has the device interface, in the order of the objects.
pub open spec fn device_paths_of(m: Seq<(Seq<char>, Seq<Seq<char>>)>) -> Seq<Seq<char>>
    decreases m.len(),
{
    if m.len() == 0 {
        seq![]
    } else {
        device_paths_of(m.drop_last()) + if m.last().1.contains(device_interface()) {
            seq![m.last().0]
        } else {
            seq![]
        }
    }
}

/// The paths of the adapters among the managed objects of BlueZ: for each object, its
/// path once for each of its interfaces that is `org.bluez.Adapter1`.
pub fn find_adapters(managed: &Vec<ManagedObject>) -> (r: Vec<String>)
    ensures
        string_views(r@) == adapter_paths_of(objects_view(managed@)),
{
    let ghost mv = objects_view(managed@);
    let mut out: Vec<String> = Vec::new();
    let mut i: usize = 0;
    while i < managed.len()
        invariant
            i <= managed.len(),
            mv == objects_view(managed@),
            string_views(out@) == adapter_paths_of(mv.take(i as int)),
        decreases managed.len() - i,
    {
        let path = &managed[i].0;
        let ifaces = &managed[i].1;
        let ghost names = string_views(ifaces@);
        let ghost before = string_views(out@);
        let mut j: usize = 0;
        while j < ifaces.len()
            invariant
                j <= ifaces.len(),
                names == string_views(ifaces@),
                string_views(out@) == before + Seq::new(
                    occurrences(names.take(j as int), adapter_interface()),
                    |_k: int| path@,
                ),
            decreases ifaces.len() - j,
        {
            let ghost prev = string_views(out@);
            assert(names.take(j + 1).drop_last() =~= names.take(j as int));
            if text_eq(ifaces[j].as_str(), "org.bluez.Adapter1") {
                out.push(path.clone());
                assert(string_views(out@) =~= prev.push(path@));
            }
            assert(string_views(out@) =~= before + Seq::new(
                occurrences(names.take(j + 1), adapter_interface()),
                |_k: int| path@,
            ));
            j = j + 1;
        }
        assert(names.take(ifaces.len() as int) =~= names);
        assert(mv.take(i + 1).drop_last() =~= mv.take(i as int));
        assert(mv.take(i + 1).last() == (path@, names));
        i = i + 1;
    }
    assert(mv.take(managed.len() as int) =~= mv);
    out
}

/// Whether a list of interface names holds a given one.
fn has_interface(ifaces: &Vec<String>, name: &str) -> (r: bool)
    ensures
        r == string_views(ifaces@).contains(name@),
{
    let mut j: usize = 0;
    while j < ifaces.len()
        invariant
            j <= ifaces.len(),
            forall|k: int| 0 <= k < j ==> ifaces@[k]@ != name@,
        decreases ifaces.len() - j,
    {
        if text_eq(ifaces[j].as_str(), name) {
            assert(string_views(ifaces@)[j as int] == name@);
            return true;
        }
        j = j + 1;
    }
    assert forall|k: int| 0 <= k < string_views(ifaces@).len() implies string_views(ifaces@)[k]
        != name@ by {
        assert(string_views(ifaces@)[k] == ifaces@[k]@);
    }
    false
}

/// The paths of the devices among the managed objects of BlueZ: each object that has the
/// interface `org.bluez.Device1`, once, in order.
pub fn find_devices(managed: &Vec<ManagedObject>) -> (r: Vec<String>)
    ensures
        string_views(r@) == device_paths_of(objects_view(managed@)),
{
    let ghost mv = objects_view(managed@);
    let mut out: Vec<String> = Vec::new();
    let mut i: usize = 0;
    while i < managed.len()
        invariant
            i <= managed.len(),
            mv == objects_view(managed@),
            string_views(out@) == device_paths_of(mv.take(i as int)),
        decreases managed.len() - i,
    {
        let ghost prev = string_views(out@);
        assert(mv.take(i + 1).drop_last() =~= mv.take(i as int));
        assert(mv.take(i + 1).last() == (managed@[i as int].0@, string_views(managed@[i as int].1@)));
        if has_interface(&managed[i].1, "org.bluez.Device1") {
            out.push(managed[i].0.clone());
        }
        assert(string_views(out@) =~= device_paths_of(mv.take(i + 1)));
        i = i + 1;
    }
    assert(mv.take(managed.len() as int) =~= mv);
    out
}

/// How often a name occurs in a list does not depend on the order of the list: it is the
/// name's count in the list's multiset, and it is positive exactly when the name occurs.
pub proof fn interface_count_ignores_order(names: Seq<Seq<char>>, name: Seq<char>)
    ensures
        occurrences(names, name) == names.to_multiset().count(name),
        occurrences(names, name) > 0 <==> names.contains(name),
    decreases names.len(),
{
    broadcast use vstd::seq_lib::group_to_multiset_ensures, vstd::multiset::group_multiset_axioms;

    if names.len() == 0 {
        assert(names.to_multiset().len() == 0);
        assert(names.to_multiset() =~= vstd::multiset::Multiset::empty());
    } else {
        let init = names.drop_last();
        interface_count_ignores_order(init, name);
        assert(init.push(names.last()) =~= names);
        if names.last() == name {
            assert(names.contains(name)) by {
                assert(names[names.len() - 1] == name);
            }
        } else {
            assert(names.contains(name) ==> init.contains(name)) by {
                if names.contains(name) {
                    let j = choose|j: int| 0 <= j < names.len() && names[j] == name;
                    assert(init[j] == name);
                }
            }
            assert(init.contains(name) ==> names.contains(name)) by {
                if init.contains(name) {
                    let j = choose|j: int| 0 <= j < init.len() && init[j] == name;
                    assert(names[j] == name);
                }
            }
        }
    }
}

/// A path is among the adapters found exactly when some managed object with that path
/// has the adapter interface, wherever it stands among the object's interfaces.
pub proof fn found_adapters_are_adapter_objects(m: Seq<(Seq<char>, Seq<Seq<char>>)>, path: Seq<char>)
    ensures
        adapter_paths_of(m).contains(path) <==> exists|i: int|
            0 <= i < m.len() && #[trigger] m[i].0 == path && m[i].1.contains(adapter_interface()),
    decreases m.len(),
{
    if m.len() > 0 {
        let init = m.drop_last();
        let last = m.last();
        found_adapters_are_adapter_objects(init, path);
        interface_count_ignores_order(last.1, adapter_interface());
        let front = adapter_paths_of(init);
        let back = Seq::new(occurrences(last.1, adapter_interface()), |_i: int| last.0);
        assert(adapter_paths_of(m) == front + back);
        if adapter_paths_of(m).contains(path) {
            let k = choose|k: int| 0 <= k < (front + back).len() && (front + back)[k] == path;
            if k < front.len() {
                assert(front[k] == path);
                let i = choose|i: int|
                    0 <= i < init.len() && #[trigger] init[i].0 == path && init[i].1.contains(adapter_interface());
                assert(m[i] == init[i]);
            } else {
                assert(back[k - front.len()] == path);
                assert(m[m.len() - 1].0 == path);
            }
        }
        if exists|i: int| 0 <= i < m.len() && #[trigger] m[i].0 == path && m[i].1.contains(adapter_interface()) {
            let i = choose|i: int|
                0 <= i < m.len() && #[trigger] m[i].0 == path && m[i].1.contains(adapter_interface());
            if i < m.len() - 1 {
                assert(init[i] == m[i]);
                let k = choose|k: int| 0 <= k < front.len() && front[k] == path;
                assert((front + back)[k] == path);
            } else {
                assert(back[0] == path);
                assert((front + back)[front.len() as int] == path);
            }
        }
    }
}

/// A path is among the devices found exactly when some managed object with that path has
/// the device interface, wherever it stands among the object's interfaces.
pub proof fn found_devices_are_device_objects(m: Seq<(Seq<char>, Seq<Seq<char>>)>, path: Seq<char>)
    ensures
        device_paths_of(m).contains(path) <==> exists|i: int|
            0 <= i < m.len() && #[trigger] m[i].0 == path && m[i].1.contains(device_interface()),
    decreases m.len(),
{
    if m.len() > 0 {
        let init = m.drop_last();
        let last = m.last();
        found_devices_are_device_objects(init, path);
        let front = device_paths_of(init);
        let back: Seq<Seq<char>> = if last.1.contains(device_interface()) {
            seq![last.0]
        } else {
            seq![]
        };
        assert(device_paths_of(m) == front + back);
        if device_paths_of(m).contains(path) {
            let k = choose|k: int| 0 <= k < (front + back).len() && (front + back)[k] == path;
            if k < front.len() {
                assert(front[k] == path);
                let i = choose|i: int|
                    0 <= i < init.len() && #[trigger] init[i].0 == path && init[i].1.contains(device_interface());
                assert(m[i] == init[i]);
            } else {
                assert(back[k - front.len()] == path);
                assert(m[m.len() - 1].0 == path);
            }
        }
        if exists|i: int| 0 <= i < m.len() && #[trigger] m[i].0 == path && m[i].1.contains(device_interface()) {
            let i = choose|i: int|
                0 <= i < m.len() && #[trigger] m[i].0 == path && m[i].1.contains(device_interface());
            if i < m.len() - 1 {
                assert(init[i] == m[i]);
                let k = choose|k: int| 0 <= k < front.len() && front[k] == path;
                assert((front + back)[k] == path);
            } else {
                assert(back[0] == path);
                assert((front + back)[front.len() as int] == path);
            }
        }
    }
}

/// What an object that appears on the bus calls for.
#[derive(PartialEq, Eq, Structural, Clone, Copy, Debug)]
pub struct AddedActions {
    /// A new adapter: start discovery on all adapters.
    pub start_discovery: bool,
    /// A new device: subscribe to it and track it by its path.
    pub track_device: bool,
}

/// What the appearance of an object with the given interfaces calls for: discovery when
/// one of them is the adapter interface, tracking when one is the device interface.
pub fn handle_added_signal(interfaces: &Vec<String>) -> (r: AddedActions)
    ensures
        r.start_discovery == string_views(interfaces@).contains(adapter_interface()),
        r.track_device == string_views(interfaces@).contains(device_interface()),
{
    AddedActions {
        start_discovery: has_interface(interfaces, "org.bluez.Adapter1"),
        track_device: has_interface(interfaces, "org.bluez.Device1"),
    }
}

/// The text by which a tracked device is shown: `MyDev(`, its name or `no_name`, its
/// address or `no_address`, and its D-Bus path.
pub open spec fn device_text(name: Option<Seq<char>>, address: Option<Seq<char>>, path: Seq<char>) -> Seq<
    char,
> {
    "MyDev("@ + match name {
        Some(n) => "name="@ + n + ", "@,
        None => "no_name, "@,
    } + match address {
        Some(a) => "address="@ + a + ", "@,
        None => "no_address, "@,
    } + "dbus_path="@ + path + ")"@
}

/// The text of an optional string.
pub open spec fn opt_view(s: Option<String>) -> Option<Seq<char>> {
    match s {
        Some(x) => Some(x@),
        None => None,
    }
}

/// Shows a tracked device, as in
/// `MyDev(name=Ruuvi 1234, address=C4:47:33:92:F2:96, dbus_path=/org/bluez/hci0/dev_C4_47_33_92_F2_96)`.
pub fn describe_device(name: &Option<String>, address: &Option<String>, path: &str) -> (r: String)
    ensures
        r@ == device_text(opt_view(*name), opt_view(*address), path@),
{
    let mut s = "MyDev(".to_owned();
    match name {
        Some(n) => {
            s.append("name=");
            s.append(n.as_str());
            s.append(", ");
        },
        None => {
            s.append("no_name, ");
        },
    }
    match address {
        Some(a) => {
            s.append("address=");
            s.append(a.as_str());
            s.append(", ");
        },
        None => {
            s.append("no_address, ");
        },
    }
    s.append("dbus_path=");
    s.append(path);
    s.append(")");
    assert(s@ =~= device_text(opt_view(*name), opt_view(*address), path@));
    s
}

/// What a property change of a device calls for.
#[derive(PartialEq, Eq, Debug)]
pub enum ListenerAction {
    /// Pass the decoded reading on.
    Forward(SensorReading),
    /// Manufacturer data that could not be read or that holds no RuuviTag reading.
    Ignore,
    /// A property other than the manufacturer data.
    Unknown,
}

/// What a change of the property `name` calls for, given the new manufacturer data where
/// it could be read: a `ManufacturerData` change whose data holds a RuuviTag reading is
/// forwarded; any other `ManufacturerData` change is ignored; other properties are unknown.
pub fn manufacturer_listener(name: &str, value: Option<&Vec<(u16, Vec<u8>)>>) -> (r: ListenerAction)
    ensures
        name@ != "ManufacturerData"@ ==> r == ListenerAction::Unknown,
        name@ == "ManufacturerData"@ ==> match value {
            Some(v) => match first_reading(manufacturer_view(v@)) {
                Some(reading) => r == ListenerAction::Forward(reading),
                None => r == ListenerAction::Ignore,
            },
            None => r == ListenerAction::Ignore,
        },
{
    if !text_eq(name, "ManufacturerData") {
        return ListenerAction::Unknown;
    }
    match value {
        Some(v) => match from_manuf(v) {
            Some(reading) => ListenerAction::Forward(reading),
            None => ListenerAction::Ignore,
        },
        None => ListenerAction::Ignore,
    }
}

} // verus!
