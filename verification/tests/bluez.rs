use ruuvi_exporter::bluez::{
    describe_device, find_adapters, find_devices, handle_added_signal, manufacturer_listener,
    AddedActions, DiscoveryFilter, ListenerAction, Transport,
};
use ruuvi_exporter::devices::DeviceTable;
use ruuvi_exporter::reading::from_manuf;

fn obj(path: &str, ifaces: &[&str]) -> (String, Vec<String>) {
    (path.to_string(), ifaces.iter().map(|s| s.to_string()).collect())
}

#[test]
fn adapters_and_devices_among_managed_objects() {
    let managed = vec![
        obj("/org/bluez", &["org.bluez.AgentManager1", "org.bluez.ProfileManager1"]),
        obj("/org/bluez/hci0", &["org.freedesktop.DBus.Properties", "org.bluez.Adapter1"]),
        obj("/org/bluez/hci0/dev_C4_47_33_92_F2_96", &["org.bluez.Device1"]),
        obj("/org/bluez/hci1", &["org.bluez.Adapter1"]),
        obj("/org/bluez/hci0/dev_00", &["org.bluez.Device1", "org.freedesktop.DBus.Introspectable"]),
    ];
    assert_eq!(find_adapters(&managed), vec!["/org/bluez/hci0", "/org/bluez/hci1"]);
    assert_eq!(
        find_devices(&managed),
        vec!["/org/bluez/hci0/dev_C4_47_33_92_F2_96", "/org/bluez/hci0/dev_00"]
    );
    assert!(find_adapters(&vec![]).is_empty());
    assert!(find_devices(&vec![obj("/x", &["org.bluez.Device"])]).is_empty());
}

#[test]
fn added_object_calls_for_discovery_or_tracking() {
    let ifaces = |v: &[&str]| v.iter().map(|s| s.to_string()).collect::<Vec<_>>();
    assert_eq!(
        handle_added_signal(&ifaces(&["org.freedesktop.DBus.Introspectable", "org.bluez.Device1"])),
        AddedActions { start_discovery: false, track_device: true }
    );
    assert_eq!(
        handle_added_signal(&ifaces(&["org.bluez.Adapter1"])),
        AddedActions { start_discovery: true, track_device: false }
    );
    assert_eq!(
        handle_added_signal(&ifaces(&[])),
        AddedActions { start_discovery: false, track_device: false }
    );
}

#[test]
fn device_description() {
    let s = describe_device(
        &Some("Ruuvi 1234".to_string()),
        &Some("C4:47:33:92:F2:96".to_string()),
        "/org/bluez/hci0/dev_C4_47_33_92_F2_96",
    );
    assert_eq!(
        s,
        "MyDev(name=Ruuvi 1234, address=C4:47:33:92:F2:96, dbus_path=/org/bluez/hci0/dev_C4_47_33_92_F2_96)"
    );
    assert_eq!(describe_device(&None, &None, "/p"), "MyDev(no_name, no_address, dbus_path=/p)");
}

#[test]
fn property_changes_of_a_device() {
    let v5 = vec![(
        0x0499u16,
        vec![
            0x05, 0x12, 0xFC, 0x53, 0x94, 0xC3, 0x7C, 0x00, 0x04, 0xFF, 0xFC, 0x04, 0x0C, 0xAC,
            0x36, 0x42, 0x00, 0xCD, 0xCB, 0xB8, 0x33, 0x4C, 0x88, 0x4F,
        ],
    )];
    let reading = from_manuf(&v5).unwrap();
    assert_eq!(manufacturer_listener("ManufacturerData", Some(&v5)), ListenerAction::Forward(reading));
    assert_eq!(manufacturer_listener("ManufacturerData", None), ListenerAction::Ignore);
    assert_eq!(
        manufacturer_listener("ManufacturerData", Some(&vec![(76, vec![1, 2])])),
        ListenerAction::Ignore
    );
    assert_eq!(manufacturer_listener("RSSI", Some(&v5)), ListenerAction::Unknown);
}

#[test]
fn device_table_keeps_one_device_per_path() {
    let mut t: DeviceTable<u32> = DeviceTable::new();
    assert_eq!(t.len(), 0);
    assert_eq!(t.insert("/a".to_string(), 1), None);
    assert_eq!(t.insert("/b".to_string(), 2), None);
    assert_eq!(t.len(), 2);
    assert_eq!(t.insert("/a".to_string(), 3), Some(1));
    assert_eq!(t.len(), 2);
    assert_eq!(t.remove(&"/a".to_string()), Some(3));
    assert_eq!(t.remove(&"/a".to_string()), None);
    assert_eq!(t.remove(&"/c".to_string()), None);
    assert_eq!(t.len(), 1);
    assert_eq!(t.remove(&"/b".to_string()), Some(2));
    assert_eq!(t.len(), 0);
}

#[test]
fn discovery_filter_holds_its_settings() {
    let f = DiscoveryFilter {
        uuids: vec![],
        rssi: -90,
        pathloss: 0,
        transport: Transport::Le,
        duplicatedata: true,
        discoverable: false,
        pattern: None,
    };
    assert_eq!(f.transport, Transport::Le);
    assert!(f.duplicatedata);
}
