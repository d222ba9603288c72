use chainsaw::iommu::{
    bracketed, get_class, get_device_id, get_device_name, get_driver, get_vendor_id,
    get_vendor_name, group_line, list_iommu_groups, list_pci_devices, pci_rescan,
    read_iommu_groups, read_pci_devices, Device, IommuGroup,
};
use chainsaw::sysfs::{DirEntry, FileWrite, Snapshot, SysfsError};

fn names(list: &[&str]) -> Vec<DirEntry> {
    list.iter().map(|n| DirEntry::Name(n.to_string())).collect()
}

fn add_device(fs: &mut Snapshot, address: &str, vendor: &str, device: &str, class: &str) {
    let base = format!("/sys/bus/pci/devices/{}", address);
    fs.record_file(&format!("{}/vendor", base), vendor);
    fs.record_file(&format!("{}/device", base), device);
    fs.record_file(&format!("{}/class", base), class);
}

const DATABASE: &str = "# pci.ids\n8086  Intel Corporation\n\t3e9b  CoffeeLake-H GT2 [UHD Graphics 630]\n10de  NVIDIA Corporation\n\t1b80  GP104 [GeForce GTX 1080]\r\n\t10f0  GP104 High Definition Audio Controller\n";

fn host() -> Snapshot {
    let mut fs = Snapshot::new();
    fs.record_dir("/sys/kernel/iommu_groups", names(&["0", "1"]));
    fs.record_dir("/sys/kernel/iommu_groups/0/devices", names(&["0000:00:02.0"]));
    fs.record_dir(
        "/sys/kernel/iommu_groups/1/devices",
        names(&["0000:01:00.0", "0000:01:00.1"]),
    );
    add_device(&mut fs, "0000:00:02.0", "0x8086\n", "0x3e9b\n", "0x030000\n");
    add_device(&mut fs, "0000:01:00.0", "0x10de\n", "0x1b80\n", "0x030000\n");
    add_device(&mut fs, "0000:01:00.1", "0x10de\n", "0x10f0\n", "0x040300\n");
    fs.record_link("/sys/bus/pci/devices/0000:00:02.0/driver", "../../../bus/pci/drivers/i915");
    fs.record_link("/sys/bus/pci/devices/0000:01:00.0/driver", "../../../../bus/pci/drivers/nvidia");
    fs.record_file("/usr/share/hwdata/pci.ids", DATABASE);
    fs
}

fn device(
    address: &str,
    group: usize,
    vendor: &str,
    id: &str,
    name: &str,
    driver: &str,
    class: &str,
) -> Device {
    Device {
        pci_address: address.to_string(),
        iommu_group: group,
        vendor_id: vendor.to_string(),
        device_id: id.to_string(),
        vendor_name: "NOT IMPLEMENTED".to_string(),
        device_name: name.to_string(),
        driver: driver.to_string(),
        class: class.to_string(),
    }
}

#[test]
fn no_iommu_directory_means_no_groups() {
    let fs = Snapshot::new();
    assert_eq!(read_iommu_groups(&fs), Ok(Vec::new()));
    assert_eq!(read_pci_devices(&fs), Ok(Vec::new()));
}

#[test]
fn groups_are_read_in_the_order_of_the_listing() {
    let groups = read_iommu_groups(&host()).unwrap();
    assert_eq!(
        groups,
        vec![
            IommuGroup { id: 0, devices: vec!["0000:00:02.0".to_string()] },
            IommuGroup {
                id: 1,
                devices: vec!["0000:01:00.0".to_string(), "0000:01:00.1".to_string()],
            },
        ]
    );
}

#[test]
fn group_without_a_number_is_passed_over() {
    let mut fs = Snapshot::new();
    fs.record_dir("/sys/kernel/iommu_groups", names(&["x", "12", "1a", ""]));
    fs.record_failure("/sys/kernel/iommu_groups/x/devices", "must not be read");
    fs.record_dir("/sys/kernel/iommu_groups/12/devices", names(&["0000:00:1f.0"]));
    assert_eq!(
        read_iommu_groups(&fs),
        Ok(vec![IommuGroup { id: 12, devices: vec!["0000:00:1f.0".to_string()] }])
    );
}

#[test]
fn group_without_devices_directory_is_empty() {
    let mut fs = Snapshot::new();
    fs.record_dir("/sys/kernel/iommu_groups", names(&["3"]));
    assert_eq!(read_iommu_groups(&fs), Ok(vec![IommuGroup { id: 3, devices: Vec::new() }]));
}

#[test]
fn later_group_of_the_same_number_replaces_the_earlier() {
    let mut fs = Snapshot::new();
    fs.record_dir("/sys/kernel/iommu_groups", names(&["1", "2", "01"]));
    fs.record_dir("/sys/kernel/iommu_groups/1/devices", names(&["a"]));
    fs.record_dir("/sys/kernel/iommu_groups/2/devices", names(&["b"]));
    fs.record_dir("/sys/kernel/iommu_groups/01/devices", names(&["c"]));
    assert_eq!(
        read_iommu_groups(&fs),
        Ok(vec![
            IommuGroup { id: 1, devices: vec!["c".to_string()] },
            IommuGroup { id: 2, devices: vec!["b".to_string()] },
        ])
    );
}

#[test]
fn group_name_that_is_not_unicode_is_an_error() {
    let mut fs = Snapshot::new();
    fs.record_dir(
        "/sys/kernel/iommu_groups",
        vec![DirEntry::Name("0".to_string()), DirEntry::NotUnicode, DirEntry::Name("1".to_string())],
    );
    assert_eq!(read_iommu_groups(&fs), Err(SysfsError::InvalidGroupName));
}

#[test]
fn device_name_that_is_not_unicode_is_passed_over() {
    let mut fs = Snapshot::new();
    fs.record_dir("/sys/kernel/iommu_groups", names(&["0"]));
    fs.record_dir(
        "/sys/kernel/iommu_groups/0/devices",
        vec![DirEntry::NotUnicode, DirEntry::Name("0000:00:02.0".to_string())],
    );
    assert_eq!(
        read_iommu_groups(&fs),
        Ok(vec![IommuGroup { id: 0, devices: vec!["0000:00:02.0".to_string()] }])
    );
}

#[test]
fn listing_failures_are_handed_on() {
    let io = |m: &str| SysfsError::Io { message: m.to_string() };
    let mut fs = Snapshot::new();
    fs.record_failure("/sys/kernel/iommu_groups", "root");
    assert_eq!(read_iommu_groups(&fs), Err(io("root")));

    let mut fs = Snapshot::new();
    fs.record_dir(
        "/sys/kernel/iommu_groups",
        vec![DirEntry::Name("0".to_string()), DirEntry::Unreadable(io("entry"))],
    );
    assert_eq!(read_iommu_groups(&fs), Err(io("entry")));

    let mut fs = Snapshot::new();
    fs.record_dir("/sys/kernel/iommu_groups", names(&["0"]));
    fs.record_failure("/sys/kernel/iommu_groups/0/devices", "devices");
    assert_eq!(read_iommu_groups(&fs), Err(io("devices")));

    let mut fs = Snapshot::new();
    fs.record_dir("/sys/kernel/iommu_groups", names(&["0"]));
    fs.record_dir(
        "/sys/kernel/iommu_groups/0/devices",
        vec![DirEntry::Name("a".to_string()), DirEntry::Unreadable(io("member"))],
    );
    assert_eq!(read_iommu_groups(&fs), Err(io("member")));
}

#[test]
fn attributes_lose_the_white_space_at_their_end() {
    let mut fs = Snapshot::new();
    add_device(&mut fs, "0000:01:00.0", " 0x10de \n", "0x1b80\n\n", "0x030000");
    assert_eq!(get_vendor_id(&fs, "0000:01:00.0"), Ok(" 0x10de".to_string()));
    assert_eq!(get_device_id(&fs, "0000:01:00.0"), Ok("0x1b80".to_string()));
    assert_eq!(get_class(&fs, "0000:01:00.0"), Ok("0x030000".to_string()));
}

#[test]
fn missing_attribute_is_an_error() {
    let fs = Snapshot::new();
    let missing = |a: &str| SysfsError::NotFound {
        path: format!("/sys/bus/pci/devices/0000:01:00.0/{}", a),
    };
    assert_eq!(get_vendor_id(&fs, "0000:01:00.0"), Err(missing("vendor")));
    assert_eq!(get_device_id(&fs, "0000:01:00.0"), Err(missing("device")));
    assert_eq!(get_class(&fs, "0000:01:00.0"), Err(missing("class")));
    assert_eq!(get_device_name(&fs, "0000:01:00.0"), Err(missing("device")));
}

#[test]
fn vendor_name_is_a_placeholder() {
    assert_eq!(get_vendor_name("0000:01:00.0"), Ok("NOT IMPLEMENTED".to_string()));
    assert_eq!(get_vendor_name(""), Ok("NOT IMPLEMENTED".to_string()));
}

#[test]
fn device_name_comes_from_the_first_matching_line() {
    let fs = host();
    assert_eq!(
        get_device_name(&fs, "0000:01:00.0"),
        Ok("GP104 [GeForce GTX 1080]".to_string())
    );
    assert_eq!(
        get_device_name(&fs, "0000:00:02.0"),
        Ok("CoffeeLake-H GT2 [UHD Graphics 630]".to_string())
    );
    let mut fs = host();
    fs.record_file("/sys/bus/pci/devices/0000:01:00.0/device", "0x8086\n");
    assert_eq!(get_device_name(&fs, "0000:01:00.0"), Ok("Intel Corporation".to_string()));
}

#[test]
fn device_name_falls_back_to_a_text() {
    let mut fs = host();
    fs.record_file("/sys/bus/pci/devices/0000:01:00.0/device", "0xffff\n");
    assert_eq!(
        get_device_name(&fs, "0000:01:00.0"),
        Ok("device not found in pci.ids".to_string())
    );
    let mut fs = Snapshot::new();
    add_device(&mut fs, "0000:01:00.0", "0x10de\n", "0x1b80\n", "0x030000\n");
    assert_eq!(
        get_device_name(&fs, "0000:01:00.0"),
        Ok("pci.ids database not found".to_string())
    );
    fs.record_failure("/usr/share/hwdata/pci.ids", "Permission denied");
    assert_eq!(
        get_device_name(&fs, "0000:01:00.0"),
        Ok("pci.ids database not found".to_string())
    );
}

#[test]
fn driver_is_the_file_name_of_the_link() {
    let fs = host();
    assert_eq!(get_driver(&fs, "0000:01:00.0"), "nvidia");
    assert_eq!(get_driver(&fs, "0000:00:02.0"), "i915");
    assert_eq!(get_driver(&fs, "0000:01:00.1"), "none");
    let mut fs = Snapshot::new();
    fs.record_link("/sys/bus/pci/devices/a/driver", "..");
    fs.record_failure("/sys/bus/pci/devices/b/driver", "Invalid argument");
    assert_eq!(get_driver(&fs, "a"), "none");
    assert_eq!(get_driver(&fs, "b"), "none");
}

#[test]
fn devices_are_read_group_by_group() {
    let devices = read_pci_devices(&host()).unwrap();
    assert_eq!(
        devices,
        vec![
            device(
                "0000:00:02.0",
                0,
                "0x8086",
                "0x3e9b",
                "CoffeeLake-H GT2 [UHD Graphics 630]",
                "i915",
                "0x030000"
            ),
            device(
                "0000:01:00.0",
                1,
                "0x10de",
                "0x1b80",
                "GP104 [GeForce GTX 1080]",
                "nvidia",
                "0x030000"
            ),
            device(
                "0000:01:00.1",
                1,
                "0x10de",
                "0x10f0",
                "GP104 High Definition Audio Controller",
                "none",
                "0x040300"
            ),
        ]
    );
}

#[test]
fn device_listed_twice_is_kept_once() {
    let mut fs = host();
    fs.record_dir("/sys/kernel/iommu_groups", names(&["0", "1", "2"]));
    fs.record_dir("/sys/kernel/iommu_groups/2/devices", names(&["0000:00:02.0"]));
    let devices = read_pci_devices(&fs).unwrap();
    assert_eq!(devices.len(), 3);
    assert_eq!(devices[0].pci_address, "0000:00:02.0");
    assert_eq!(devices[0].iommu_group, 2);
    assert_eq!(devices[1].pci_address, "0000:01:00.0");
    assert_eq!(devices[2].pci_address, "0000:01:00.1");
}

#[test]
fn unreadable_mandatory_attribute_fails_the_enumeration() {
    let io = |m: &str| SysfsError::Io { message: m.to_string() };
    for attribute in ["vendor", "device", "class"] {
        let mut fs = host();
        fs.record_failure(
            &format!("/sys/bus/pci/devices/0000:01:00.1/{}", attribute),
            attribute,
        );
        assert_eq!(read_pci_devices(&fs), Err(io(attribute)));
    }
    let mut fs = host();
    fs.record_failure("/sys/bus/pci/devices/0000:01:00.0/vendor", "first");
    fs.record_failure("/sys/bus/pci/devices/0000:01:00.0/class", "second");
    fs.record_failure("/sys/bus/pci/devices/0000:01:00.1/vendor", "third");
    assert_eq!(read_pci_devices(&fs), Err(io("first")));
}

#[test]
fn rescan_writes_one_to_the_bus() {
    assert_eq!(
        pci_rescan(),
        FileWrite { path: "/sys/bus/pci/rescan".to_string(), value: "1".to_string() }
    );
}

#[test]
fn group_line_names_the_group() {
    assert_eq!(group_line(0, "[]"), "Group 0: []");
    assert_eq!(group_line(17, "[\"a\", \"b\"]"), "Group 17: [\"a\", \"b\"]");
    assert_eq!(group_line(3, ""), "Group 3: ");
}

#[test]
fn groups_are_listed_under_a_heading() {
    assert_eq!(
        list_iommu_groups(&host()),
        Ok(vec![
            "IOMMU groups detected:".to_string(),
            "".to_string(),
            "Group 0: [\"0000:00:02.0\"]".to_string(),
            "Group 1: [\"0000:01:00.0\", \"0000:01:00.1\"]".to_string(),
        ])
    );
    let mut fs = Snapshot::new();
    fs.record_dir("/sys/kernel/iommu_groups", names(&["4"]));
    fs.record_dir("/sys/kernel/iommu_groups/4/devices", names(&["a\"b"]));
    assert_eq!(
        list_iommu_groups(&fs),
        Ok(vec![
            "IOMMU groups detected:".to_string(),
            "".to_string(),
            "Group 4: [\"a\\\"b\"]".to_string(),
        ])
    );
}

#[test]
fn no_groups_are_listed_as_none() {
    assert_eq!(
        list_iommu_groups(&Snapshot::new()),
        Ok(vec!["No IOMMU groups found.".to_string()])
    );
    let mut fs = Snapshot::new();
    fs.record_failure("/sys/kernel/iommu_groups", "denied");
    assert_eq!(
        list_iommu_groups(&fs),
        Err(SysfsError::Io { message: "denied".to_string() })
    );
}

#[test]
fn devices_are_listed_with_their_attributes() {
    let report = list_pci_devices(&host()).unwrap();
    assert_eq!(report.len(), 18);
    assert_eq!(
        report[6..12],
        [
            "Device: 0000:01:00.0",
            "| IOMMU GROUP: 1",
            "| VENDOR_ID: 0x10de",
            "| DEVICE_ID: 0x1b80",
            "| DRIVER: nvidia",
            "",
        ]
    );
    assert_eq!(report[0], "Device: 0000:00:02.0");
    assert_eq!(report[16], "| DRIVER: none");
}

#[test]
fn no_devices_are_listed_as_none() {
    assert_eq!(
        list_pci_devices(&Snapshot::new()),
        Ok(vec!["No PCI devices found.".to_string()])
    );
    let mut fs = Snapshot::new();
    fs.record_dir("/sys/kernel/iommu_groups", names(&["0"]));
    fs.record_dir("/sys/kernel/iommu_groups/0/devices", names(&["0000:00:02.0"]));
    assert_eq!(
        list_pci_devices(&fs),
        Err(SysfsError::NotFound {
            path: "/sys/bus/pci/devices/0000:00:02.0/vendor".to_string()
        })
    );
}

#[test]
fn bracketed_puts_commas_between_the_items() {
    let items = |list: &[&str]| list.iter().map(|i| i.to_string()).collect::<Vec<String>>();
    assert_eq!(bracketed(&items(&[])), "[]");
    assert_eq!(bracketed(&items(&["a"])), "[a]");
    assert_eq!(bracketed(&items(&["a", "b"])), "[a, b]");
    assert_eq!(bracketed(&items(&["a", "", "c"])), "[a, , c]");
}

#[test]
fn group_listing_agrees_with_the_debug_format() {
    let lists: [&[&str]; 5] = [
        &[],
        &["0000:00:02.0"],
        &["0000:01:00.0", "0000:01:00.1", "0000:01:00.2"],
        &["quote\"d", "back\\slash", "tab\there"],
        &["\u{e9}", "\u{1f600}", "\u{7f}", ""],
    ];
    for list in lists {
        let devices: Vec<String> = list.iter().map(|d| d.to_string()).collect();
        let mut fs = Snapshot::new();
        fs.record_dir("/sys/kernel/iommu_groups", names(&["6"]));
        fs.record_dir("/sys/kernel/iommu_groups/6/devices", names(list));
        let report = list_iommu_groups(&fs).unwrap();
        assert_eq!(report.len(), 3);
        assert_eq!(report[2], format!("Group 6: {:?}", devices));
    }
}
