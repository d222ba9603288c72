use chainsaw::sysfs::{
    device_file_paths, device_link_paths, device_path, group_devices_path, iommu_root_path,
    pci_database_path, power_state_path, render_link_path, rescan_path, slot_address_path,
    slot_path, slots_path, DirEntry, Node, Snapshot, SysfsError,
};

#[test]
fn paths_are_those_of_the_kernel() {
    assert_eq!(iommu_root_path(), "/sys/kernel/iommu_groups");
    assert_eq!(group_devices_path("7"), "/sys/kernel/iommu_groups/7/devices");
    assert_eq!(device_path("0000:01:00.0", "vendor"), "/sys/bus/pci/devices/0000:01:00.0/vendor");
    assert_eq!(
        device_path("0000:01:00.0", "driver/unbind"),
        "/sys/bus/pci/devices/0000:01:00.0/driver/unbind"
    );
    assert_eq!(rescan_path(), "/sys/bus/pci/rescan");
    assert_eq!(slots_path(), "/sys/bus/pci/slots");
    assert_eq!(slot_path("3", "power"), "/sys/bus/pci/slots/3/power");
    assert_eq!(slot_path("3", "address"), "/sys/bus/pci/slots/3/address");
    assert_eq!(render_link_path("0000:01:00.0"), "/dev/dri/by-path/pci-0000:01:00.0-render");
    assert_eq!(pci_database_path(), "/usr/share/hwdata/pci.ids");
}

#[test]
fn empty_snapshot_holds_nothing() {
    let fs = Snapshot::new();
    assert!(!fs.is_present("/sys"));
    assert_eq!(fs.get("/sys"), None);
    assert_eq!(
        fs.read_file("/sys/x"),
        Err(SysfsError::NotFound { path: "/sys/x".to_string() })
    );
    assert_eq!(
        fs.read_link("/sys/x"),
        Err(SysfsError::NotFound { path: "/sys/x".to_string() })
    );
    assert_eq!(
        fs.read_dir("/sys/x"),
        Err(SysfsError::NotFound { path: "/sys/x".to_string() })
    );
}

#[test]
fn records_are_found_by_their_path() {
    let mut fs = Snapshot::new();
    fs.record_file("/a", "one");
    fs.record_link("/b", "../a");
    fs.record_dir("/c", vec![DirEntry::Name("x".to_string()), DirEntry::NotUnicode]);
    assert!(fs.is_present("/a"));
    assert!(fs.is_present("/b"));
    assert!(fs.is_present("/c"));
    assert!(!fs.is_present("/d"));
    assert!(!fs.is_present("/"));
    assert_eq!(fs.read_file("/a"), Ok("one".to_string()));
    assert_eq!(fs.read_link("/b"), Ok("../a".to_string()));
    assert_eq!(
        fs.read_dir("/c"),
        Ok(&vec![DirEntry::Name("x".to_string()), DirEntry::NotUnicode])
    );
    assert_eq!(fs.get("/a"), Some(&Node::File("one".to_string())));
}

#[test]
fn later_record_replaces_the_earlier() {
    let mut fs = Snapshot::new();
    fs.record_file("/a", "one");
    fs.record_file("/b", "other");
    fs.record_file("/a", "two");
    assert_eq!(fs.read_file("/a"), Ok("two".to_string()));
    assert_eq!(fs.read_file("/b"), Ok("other".to_string()));
    fs.record_link("/a", "/b");
    assert_eq!(fs.read_link("/a"), Ok("/b".to_string()));
    assert_eq!(fs.read_file("/a"), Err(SysfsError::NotFound { path: "/a".to_string() }));
}

#[test]
fn reading_the_wrong_kind_finds_nothing() {
    let mut fs = Snapshot::new();
    fs.record_file("/a", "one");
    fs.record_dir("/c", Vec::new());
    assert_eq!(fs.read_link("/a"), Err(SysfsError::NotFound { path: "/a".to_string() }));
    assert_eq!(fs.read_dir("/a"), Err(SysfsError::NotFound { path: "/a".to_string() }));
    assert_eq!(fs.read_file("/c"), Err(SysfsError::NotFound { path: "/c".to_string() }));
}

#[test]
fn failure_is_handed_on_as_recorded() {
    let mut fs = Snapshot::new();
    fs.record_failure("/a", "Permission denied (os error 13)");
    let expected = SysfsError::Io { message: "Permission denied (os error 13)".to_string() };
    assert!(fs.is_present("/a"));
    assert_eq!(fs.read_file("/a"), Err(expected.clone()));
    assert_eq!(fs.read_link("/a"), Err(expected.clone()));
    assert_eq!(fs.read_dir("/a"), Err(expected.clone()));
    fs.record("/b", Node::Unreadable(SysfsError::NotSleeping));
    assert_eq!(fs.read_file("/b"), Err(SysfsError::NotSleeping));
}

#[test]
fn error_messages() {
    assert_eq!(
        SysfsError::NotFound { path: "/x/y".to_string() }.message(),
        "No such file or directory: /x/y"
    );
    assert_eq!(SysfsError::Io { message: "boom".to_string() }.message(), "boom");
    assert_eq!(
        SysfsError::NotSleeping.message(),
        "Device is not in sleep state (D3cold), cannot safely unbind"
    );
    assert_eq!(SysfsError::SlotNotFound.message(), "PCI slot not found");
    assert_eq!(SysfsError::InvalidGroupName.message(), "Invalid group directory name");
}

#[test]
fn duplicate_is_equal() {
    for e in [
        SysfsError::NotFound { path: "/p".to_string() },
        SysfsError::Io { message: "m".to_string() },
        SysfsError::NotSleeping,
        SysfsError::SlotNotFound,
        SysfsError::InvalidGroupName,
    ] {
        assert_eq!(e.duplicate(), e);
    }
}

#[test]
fn probes_of_a_device() {
    assert_eq!(
        device_file_paths("0000:01:00.0"),
        vec![
            "/sys/bus/pci/devices/0000:01:00.0/vendor",
            "/sys/bus/pci/devices/0000:01:00.0/device",
            "/sys/bus/pci/devices/0000:01:00.0/class",
            "/sys/bus/pci/devices/0000:01:00.0/boot_vga",
        ]
    );
    assert_eq!(
        device_link_paths("0000:01:00.0"),
        vec![
            "/sys/bus/pci/devices/0000:01:00.0/driver",
            "/dev/dri/by-path/pci-0000:01:00.0-render",
        ]
    );
    assert_eq!(slot_address_path("12"), "/sys/bus/pci/slots/12/address");
    assert_eq!(power_state_path("0000:01:00.0"), "/sys/bus/pci/devices/0000:01:00.0/power_state");
}
