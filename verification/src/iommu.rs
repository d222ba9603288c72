//! Enumeration of the PCI devices through the IOMMU groups.

use vstd::prelude::*;
use crate::sysfs::{
    device_attribute, device_path, dir_at, file_at, group_devices_dir, group_devices_path,
    iommu_root, iommu_root_path, link_at, outcome, pci_database, pci_database_path, rescan_file,
    rescan_path, DirEntry, DirEntryView, FileWrite, FileWriteView, Node, Snapshot, SysfsError,
    SysfsErrorView, Tree,
};
use crate::text::{
    base_name, contains, decimal, file_name, lines, number_text, parse_number, parse_usize,
    replace, replaced, split_lines, text_contains, trim, trim_end, trimmed, trimmed_end,
};

verus! {

/// An IOMMU group: the PCI devices that the platform isolates together.
#[derive(Clone, Debug, PartialEq, Eq)]
pub struct IommuGroup {
    /// The group's number.
    pub id: usize,
    /// The PCI addresses of the group's devices.
    pub devices: Vec<String>,
}

/// An [`IommuGroup`] as a mathematical value.
pub struct IommuGroupView {
    pub id: usize,
    pub devices: Seq<Seq<char>>,
}

impl View for IommuGroup {
    type V = IommuGroupView;

    open spec fn view(&self) -> IommuGroupView {
        IommuGroupView { id: self.id, devices: self.devices.deep_view() }
    }
}

impl DeepView for IommuGroup {
    type V = IommuGroupView;

    open spec fn deep_view(&self) -> IommuGroupView {
        self@
    }
}

/// One PCI function and what its attribute files say of it.
#[derive(Clone, Debug, PartialEq, Eq)]
pub struct Device {
    /// The address of the function, such as `0000:00:08.0`.
    pub pci_address: String,
    /// The number of the IOMMU group that the device belongs to.
    pub iommu_group: usize,
    pub vendor_id: String,
    pub device_id: String,
    pub vendor_name: String,
    pub device_name: String,
    /// The name of the bound driver, or `none`.
    pub driver: String,
    /// The PCI class code.
    pub class: String,
}

/// A [`Device`] as a mathematical value.
pub struct DeviceView {
    pub pci_address: Seq<char>,
    pub iommu_group: usize,
    pub vendor_id: Seq<char>,
    pub device_id: Seq<char>,
    pub vendor_name: Seq<char>,
    pub device_name: Seq<char>,
    pub driver: Seq<char>,
    pub class: Seq<char>,
}

impl View for Device {
    type V = DeviceView;

    open spec fn view(&self) -> DeviceView {
        DeviceView {
            pci_address: self.pci_address@,
            iommu_group: self.iommu_group,
            vendor_id: self.vendor_id@,
            device_id: self.device_id@,
            vendor_name: self.vendor_name@,
            device_name: self.device_name@,
            driver: self.driver@,
            class: self.class@,
        }
    }
}

impl DeepView for Device {
    type V = DeviceView;

    open spec fn deep_view(&self) -> DeviceView {
        self@
    }
}

/// `items` with `item` in the place of the first item that has its key, or
/// at the end where none has.
pub open spec fn put<T, K>(items: Seq<T>, item: T, key: spec_fn(T) -> K) -> Seq<T>
    decreases items.len(),
{
    if items.len() == 0 {
        seq![item]
    } else if key(items[0]) == key(item) {
        seq![item] + items.drop_first()
    } else {
        seq![items[0]] + put(items.drop_first(), item, key)
    }
}

/// Whether no two of `items` have the same key.
pub open spec fn distinct<T, K>(items: Seq<T>, key: spec_fn(T) -> K) -> bool {
    forall|i: int, j: int| 0 <= i < j < items.len() ==> key(items[i]) != key(items[j])
}

/// Where the first item with the key of `item` stands at `i`, `put` replaces
/// that item.
pub proof fn lemma_put_replaces<T, K>(items: Seq<T>, item: T, key: spec_fn(T) -> K, i: int)
    requires
        0 <= i < items.len(),
        key(items[i]) == key(item),
        forall|j: int| 0 <= j < i ==> key(#[trigger] items[j]) != key(item),
    ensures
        put(items, item, key) == items.update(i, item),
    decreases items.len(),
{
    if i > 0 {
        lemma_put_replaces(items.drop_first(), item, key, i - 1);
    }
}

/// Where no item has the key of `item`, `put` appends it.
pub proof fn lemma_put_appends<T, K>(items: Seq<T>, item: T, key: spec_fn(T) -> K)
    requires
        forall|j: int| 0 <= j < items.len() ==> key(#[trigger] items[j]) != key(item),
    ensures
        put(items, item, key) == items.push(item),
    decreases items.len(),
{
    if items.len() > 0 {
        lemma_put_appends(items.drop_first(), item, key);
    }
}

/// What tells two IOMMU groups apart: a group's number.
pub open spec fn group_key() -> spec_fn(IommuGroupView) -> usize {
    |g: IommuGroupView| g.id
}

/// What tells two devices apart: a device's address.
pub open spec fn device_key() -> spec_fn(DeviceView) -> Seq<char> {
    |d: DeviceView| d.pci_address
}

/// Puts `group` in the place of the group with its number, or at the end.
fn put_group(groups: &mut Vec<IommuGroup>, group: IommuGroup)
    requires
        distinct(old(groups).deep_view(), group_key()),
    ensures
        final(groups).deep_view() == put(old(groups).deep_view(), group@, group_key()),
        distinct(final(groups).deep_view(), group_key()),
{
    let ghost before = groups.deep_view();
    let mut i: usize = 0;
    while i < groups.len()
        invariant
            i <= groups.len(),
            groups.deep_view() == before,
            before == old(groups).deep_view(),
            distinct(before, group_key()),
            forall|j: int| 0 <= j < i ==> group_key()(#[trigger] before[j]) != group_key()(group@),
        decreases groups.len() - i,
    {
        if groups[i].id == group.id {
            proof {
                lemma_put_replaces(before, group@, group_key(), i as int);
            }
            groups.set(i, group);
            let ghost after = groups.deep_view();
            assert forall|a: int, b: int| 0 <= a < b < after.len() implies group_key()(after[a])
                != group_key()(after[b]) by {
                assert(group_key()(before[a]) != group_key()(before[b]));
            }
            return ;
        }
        i = i + 1;
    }
    proof {
        lemma_put_appends(before, group@, group_key());
    }
    groups.push(group);
}

/// The names among `entries`, after `names`: an entry whose name is not
/// Unicode is passed over, and the listing's first failure is the result.
pub open spec fn entry_names(names: Seq<Seq<char>>, entries: Seq<DirEntryView>) -> Result<
    Seq<Seq<char>>,
    SysfsErrorView,
>
    decreases entries.len(),
{
    if entries.len() == 0 {
        Ok(names)
    } else {
        match entries[0] {
            DirEntryView::Name(name) => entry_names(names.push(name), entries.drop_first()),
            DirEntryView::NotUnicode => entry_names(names, entries.drop_first()),
            DirEntryView::Unreadable(e) => Err(e),
        }
    }
}

/// The addresses of the devices of the group whose directory is named
/// `name`: none where the group has no `devices` directory.
pub open spec fn group_members(tree: Tree, name: Seq<char>) -> Result<
    Seq<Seq<char>>,
    SysfsErrorView,
> {
    let dir = group_devices_dir(name);
    if tree.contains_key(dir) {
        match dir_at(tree, dir) {
            Ok(entries) => entry_names(Seq::empty(), entries),
            Err(e) => Err(e),
        }
    } else {
        Ok(Seq::empty())
    }
}

/// `groups` after one entry of the IOMMU directory: a name that is a number
/// adds the group of that number, any other name adds nothing.
pub open spec fn add_group(tree: Tree, groups: Seq<IommuGroupView>, entry: DirEntryView) -> Result<
    Seq<IommuGroupView>,
    SysfsErrorView,
> {
    match entry {
        DirEntryView::Unreadable(e) => Err(e),
        DirEntryView::NotUnicode => Err(SysfsErrorView::InvalidGroupName),
        DirEntryView::Name(name) => match parse_usize(name) {
            None => Ok(groups),
            Some(id) => match group_members(tree, name) {
                Ok(devices) => Ok(put(groups, IommuGroupView { id, devices }, group_key())),
                Err(e) => Err(e),
            },
        },
    }
}

/// `groups` after the entries `entries` of the IOMMU directory, up to the
/// first failure.
pub open spec fn add_groups(
    tree: Tree,
    groups: Seq<IommuGroupView>,
    entries: Seq<DirEntryView>,
) -> Result<Seq<IommuGroupView>, SysfsErrorView>
    decreases entries.len(),
{
    if entries.len() == 0 {
        Ok(groups)
    } else {
        match add_group(tree, groups, entries[0]) {
            Ok(next) => add_groups(tree, next, entries.drop_first()),
            Err(e) => Err(e),
        }
    }
}

/// The IOMMU groups of `tree`: none where the platform has no IOMMU
/// directory.
pub open spec fn iommu_groups(tree: Tree) -> Result<Seq<IommuGroupView>, SysfsErrorView> {
    if tree.contains_key(iommu_root()) {
        match dir_at(tree, iommu_root()) {
            Ok(entries) => add_groups(tree, Seq::empty(), entries),
            Err(e) => Err(e),
        }
    } else {
        Ok(Seq::empty())
    }
}

fn read_entry_names(entries: &Vec<DirEntry>) -> (r: Result<Vec<String>, SysfsError>)
    ensures
        outcome(r) == entry_names(Seq::empty(), entries.deep_view()),
{
    let mut names: Vec<String> = Vec::new();
    let mut i: usize = 0;
    assert(entries.deep_view().skip(0) == entries.deep_view());
    assert(names.deep_view() =~= Seq::<Seq<char>>::empty());
    while i < entries.len()
        invariant
            i <= entries.len(),
            entry_names(Seq::empty(), entries.deep_view()) == entry_names(
                names.deep_view(),
                entries.deep_view().skip(i as int),
            ),
        decreases entries.len() - i,
    {
        let ghost rest = entries.deep_view().skip(i as int);
        let ghost before = names.deep_view();
        assert(rest.drop_first() == entries.deep_view().skip(i + 1));
        match &entries[i] {
            DirEntry::Name(name) => {
                names.push(name.clone());
                assert(names.deep_view() =~= before.push(name@));
            },
            DirEntry::NotUnicode => {},
            DirEntry::Unreadable(e) => {
                return Err(e.duplicate());
            },
        }
        i = i + 1;
    }
    Ok(names)
}

fn read_group_members(fs: &Snapshot, name: &str) -> (r: Result<Vec<String>, SysfsError>)
    ensures
        outcome(r) == group_members(fs@, name@),
{
    let dir = group_devices_path(name);
    if !fs.is_present(dir.as_str()) {
        let none: Vec<String> = Vec::new();
        assert(none.deep_view() =~= Seq::<Seq<char>>::empty());
        return Ok(none);
    }
    match fs.read_dir(dir.as_str()) {
        Ok(entries) => read_entry_names(entries),
        Err(e) => Err(e),
    }
}

/// The IOMMU groups that `fs` records, no two of them with the same number.
/// A platform without IOMMU groups has none; a group whose directory name is
/// no number is passed over.
pub fn read_iommu_groups(fs: &Snapshot) -> (r: Result<Vec<IommuGroup>, SysfsError>)
    ensures
        outcome(r) == iommu_groups(fs@),
        r matches Ok(groups) ==> distinct(groups.deep_view(), group_key()),
{
    let root = iommu_root_path();
    let mut groups: Vec<IommuGroup> = Vec::new();
    assert(groups.deep_view() =~= Seq::<IommuGroupView>::empty());
    if !fs.is_present(root.as_str()) {
        return Ok(groups);
    }
    let entries = match fs.read_dir(root.as_str()) {
        Ok(entries) => entries,
        Err(e) => {
            return Err(e);
        },
    };
    let mut i: usize = 0;
    assert(entries.deep_view().skip(0) == entries.deep_view());
    while i < entries.len()
        invariant
            i <= entries.len(),
            distinct(groups.deep_view(), group_key()),
            iommu_groups(fs@) == add_groups(
                fs@,
                groups.deep_view(),
                entries.deep_view().skip(i as int),
            ),
        decreases entries.len() - i,
    {
        let ghost rest = entries.deep_view().skip(i as int);
        assert(rest.drop_first() == entries.deep_view().skip(i + 1));
        match &entries[i] {
            DirEntry::Unreadable(e) => {
                return Err(e.duplicate());
            },
            DirEntry::NotUnicode => {
                return Err(SysfsError::InvalidGroupName);
            },
            DirEntry::Name(name) => {
                match parse_number(name.as_str()) {
                    None => {},
                    Some(id) => {
                        match read_group_members(fs, name.as_str()) {
                            Ok(devices) => {
                                put_group(&mut groups, IommuGroup { id, devices });
                            },
                            Err(e) => {
                                return Err(e);
                            },
                        }
                    },
                }
            },
        }
        i = i + 1;
    }
    Ok(groups)
}

/// The text of the attribute `attribute` of the device at `address`,
/// without the white space that ends it.
pub open spec fn attribute_of(tree: Tree, address: Seq<char>, attribute: Seq<char>) -> Result<
    Seq<char>,
    SysfsErrorView,
> {
    match file_at(tree, device_attribute(address, attribute)) {
        Ok(text) => Ok(trim_end(text)),
        Err(e) => Err(e),
    }
}

fn read_attribute(fs: &Snapshot, pci_address: &str, attribute: &str) -> (r: Result<
    String,
    SysfsError,
>)
    ensures
        outcome(r) == attribute_of(fs@, pci_address@, attribute@),
{
    let path = device_path(pci_address, attribute);
    match fs.read_file(path.as_str()) {
        Ok(text) => Ok(trimmed_end(text.as_str())),
        Err(e) => Err(e),
    }
}

/// The vendor id of the device at `pci_address`.
pub fn get_vendor_id(fs: &Snapshot, pci_address: &str) -> (r: Result<String, SysfsError>)
    ensures
        outcome(r) == attribute_of(fs@, pci_address@, "vendor"@),
{
    read_attribute(fs, pci_address, "vendor")
}

/// The device id of the device at `pci_address`.
pub fn get_device_id(fs: &Snapshot, pci_address: &str) -> (r: Result<String, SysfsError>)
    ensures
        outcome(r) == attribute_of(fs@, pci_address@, "device"@),
{
    read_attribute(fs, pci_address, "device")
}

/// The class code of the device at `pci_address`.
pub fn get_class(fs: &Snapshot, pci_address: &str) -> (r: Result<String, SysfsError>)
    ensures
        outcome(r) == attribute_of(fs@, pci_address@, "class"@),
{
    read_attribute(fs, pci_address, "class")
}

/// The name that stands for a vendor: vendors are not looked up.
pub open spec fn vendor_placeholder() -> Seq<char> {
    "NOT IMPLEMENTED"@
}

/// The vendor name of the device at `pci_address`: always the placeholder.
pub fn get_vendor_name(pci_address: &str) -> (r: Result<String, SysfsError>)
    ensures
        outcome(r) == Ok::<Seq<char>, SysfsErrorView>(vendor_placeholder()),
{
    Ok(String::from_str("NOT IMPLEMENTED"))
}

/// The first of `lines` that contains `id`.
pub open spec fn matching_line(lines: Seq<Seq<char>>, id: Seq<char>) -> Option<Seq<char>>
    decreases lines.len(),
{
    if lines.len() == 0 {
        None
    } else if contains(lines[0], id) {
        Some(lines[0])
    } else {
        matching_line(lines.drop_first(), id)
    }
}

/// The name that the database of `tree` gives for the device id `id`: what
/// is left of the first line that contains `id` when `id` and the white
/// space around are taken out. A database that cannot be read and an id that
/// no line contains give a text that says so.
pub open spec fn database_name(tree: Tree, id: Seq<char>) -> Seq<char> {
    match file_at(tree, pci_database()) {
        Ok(text) => match matching_line(lines(text), id) {
            Some(line) => trim(replace(trim(line), id, ""@)),
            None => "device not found in pci.ids"@,
        },
        Err(_) => "pci.ids database not found"@,
    }
}

/// The display name of the device at `address`, looked up by its device id
/// without the `0x` that starts it.
pub open spec fn device_name_of(tree: Tree, address: Seq<char>) -> Result<
    Seq<char>,
    SysfsErrorView,
> {
    match attribute_of(tree, address, "device"@) {
        Ok(id) => Ok(database_name(tree, trim(replace(id, "0x"@, ""@)))),
        Err(e) => Err(e),
    }
}

fn find_line(database: &Vec<String>, id: &str) -> (found: Option<usize>)
    ensures
        match found {
            Some(i) => i < database.len() && matching_line(database.deep_view(), id@) == Some(
                database@[i as int]@,
            ),
            None => matching_line(database.deep_view(), id@).is_none(),
        },
{
    let mut i: usize = 0;
    assert(database.deep_view().skip(0) == database.deep_view());
    while i < database.len()
        invariant
            i <= database.len(),
            matching_line(database.deep_view(), id@) == matching_line(
                database.deep_view().skip(i as int),
                id@,
            ),
        decreases database.len() - i,
    {
        let ghost rest = database.deep_view().skip(i as int);
        assert(rest.drop_first() == database.deep_view().skip(i + 1));
        if text_contains(database[i].as_str(), id) {
            return Some(i);
        }
        i = i + 1;
    }
    None
}

/// The display name of the device at `pci_address`. Only a failure to read
/// the device id is an error: the lookup itself always gives a text.
pub fn get_device_name(fs: &Snapshot, pci_address: &str) -> (r: Result<String, SysfsError>)
    ensures
        outcome(r) == device_name_of(fs@, pci_address@),
{
    let raw = match get_device_id(fs, pci_address) {
        Ok(raw) => raw,
        Err(e) => {
            return Err(e);
        },
    };
    let id = trimmed(replaced(raw.as_str(), "0x", "").as_str());
    let path = pci_database_path();
    let name = match fs.get(path.as_str()) {
        Some(Node::File(text)) => {
            let database = split_lines(text.as_str());
            match find_line(&database, id.as_str()) {
                Some(i) => {
                    let line = trimmed(database[i].as_str());
                    trimmed(replaced(line.as_str(), id.as_str(), "").as_str())
                },
                None => String::from_str("device not found in pci.ids"),
            }
        },
        _ => String::from_str("pci.ids database not found"),
    };
    Ok(name)
}

/// The name of the driver bound to the device at `address`: the file name
/// of the target of its `driver` link, or `none`.
pub open spec fn driver_of(tree: Tree, address: Seq<char>) -> Seq<char> {
    match link_at(tree, device_attribute(address, "driver"@)) {
        Ok(target) => match file_name(target) {
            Some(name) => name,
            None => "none"@,
        },
        Err(_) => "none"@,
    }
}

/// The name of the driver bound to the device at `pci_address`, or `none`.
pub fn get_driver(fs: &Snapshot, pci_address: &str) -> (driver: String)
    ensures
        driver@ == driver_of(fs@, pci_address@),
{
    let path = device_path(pci_address, "driver");
    match fs.read_link(path.as_str()) {
        Ok(target) => match base_name(target.as_str()) {
            Some(name) => name,
            None => String::from_str("none"),
        },
        Err(_) => String::from_str("none"),
    }
}

/// The device at `address` in the group `group`. The vendor id, the device
/// id and the class code must be readable; the names and the driver never
/// fail.
pub open spec fn device_at(tree: Tree, group: usize, address: Seq<char>) -> Result<
    DeviceView,
    SysfsErrorView,
> {
    match attribute_of(tree, address, "vendor"@) {
        Err(e) => Err(e),
        Ok(vendor_id) => match attribute_of(tree, address, "device"@) {
            Err(e) => Err(e),
            Ok(device_id) => match attribute_of(tree, address, "class"@) {
                Err(e) => Err(e),
                Ok(class) => Ok(
                    DeviceView {
                        pci_address: address,
                        iommu_group: group,
                        vendor_id,
                        device_id,
                        vendor_name: vendor_placeholder(),
                        device_name: database_name(tree, trim(replace(device_id, "0x"@, ""@))),
                        driver: driver_of(tree, address),
                        class,
                    },
                ),
            },
        },
    }
}

/// `devices` after the devices at `addresses`, all of the group `group`, up
/// to the first failure.
pub open spec fn add_devices(
    tree: Tree,
    devices: Seq<DeviceView>,
    group: usize,
    addresses: Seq<Seq<char>>,
) -> Result<Seq<DeviceView>, SysfsErrorView>
    decreases addresses.len(),
{
    if addresses.len() == 0 {
        Ok(devices)
    } else {
        match device_at(tree, group, addresses[0]) {
            Ok(device) => add_devices(
                tree,
                put(devices, device, device_key()),
                group,
                addresses.drop_first(),
            ),
            Err(e) => Err(e),
        }
    }
}

/// `devices` after the devices of `groups`, up to the first failure.
pub open spec fn add_group_devices(
    tree: Tree,
    devices: Seq<DeviceView>,
    groups: Seq<IommuGroupView>,
) -> Result<Seq<DeviceView>, SysfsErrorView>
    decreases groups.len(),
{
    if groups.len() == 0 {
        Ok(devices)
    } else {
        match add_devices(tree, devices, groups[0].id, groups[0].devices) {
            Ok(next) => add_group_devices(tree, next, groups.drop_first()),
            Err(e) => Err(e),
        }
    }
}

/// The PCI devices of `tree`: those of its IOMMU groups, group by group.
pub open spec fn pci_devices(tree: Tree) -> Result<Seq<DeviceView>, SysfsErrorView> {
    match iommu_groups(tree) {
        Ok(groups) => add_group_devices(tree, Seq::empty(), groups),
        Err(e) => Err(e),
    }
}

fn read_device(fs: &Snapshot, group: usize, pci_address: &str) -> (r: Result<Device, SysfsError>)
    ensures
        outcome(r) == device_at(fs@, group, pci_address@),
{
    let vendor_id = match get_vendor_id(fs, pci_address) {
        Ok(id) => id,
        Err(e) => {
            return Err(e);
        },
    };
    let device_id = match get_device_id(fs, pci_address) {
        Ok(id) => id,
        Err(e) => {
            return Err(e);
        },
    };
    let vendor_name = match get_vendor_name(pci_address) {
        Ok(name) => name,
        Err(e) => {
            return Err(e);
        },
    };
    let device_name = match get_device_name(fs, pci_address) {
        Ok(name) => name,
        Err(e) => {
            return Err(e);
        },
    };
    let driver = get_driver(fs, pci_address);
    let class = match get_class(fs, pci_address) {
        Ok(class) => class,
        Err(e) => {
            return Err(e);
        },
    };
    Ok(
        Device {
            pci_address: String::from_str(pci_address),
            iommu_group: group,
            vendor_id,
            device_id,
            vendor_name,
            device_name,
            driver,
            class,
        },
    )
}

/// Puts `device` in the place of the device with its address, or at the end.
fn put_device(devices: &mut Vec<Device>, device: Device)
    requires
        distinct(old(devices).deep_view(), device_key()),
    ensures
        final(devices).deep_view() == put(old(devices).deep_view(), device@, device_key()),
        distinct(final(devices).deep_view(), device_key()),
{
    let ghost before = devices.deep_view();
    let mut i: usize = 0;
    while i < devices.len()
        invariant
            i <= devices.len(),
            devices.deep_view() == before,
            before == old(devices).deep_view(),
            distinct(before, device_key()),
            forall|j: int|
                0 <= j < i ==> device_key()(#[trigger] before[j]) != device_key()(device@),
        decreases devices.len() - i,
    {
        if devices[i].pci_address == device.pci_address {
            proof {
                lemma_put_replaces(before, device@, device_key(), i as int);
            }
            devices.set(i, device);
            let ghost after = devices.deep_view();
            assert forall|a: int, b: int| 0 <= a < b < after.len() implies device_key()(after[a])
                != device_key()(after[b]) by {
                assert(device_key()(before[a]) != device_key()(before[b]));
            }
            return ;
        }
        i = i + 1;
    }
    proof {
        lemma_put_appends(before, device@, device_key());
    }
    devices.push(device);
}

fn read_group_devices(fs: &Snapshot, devices: &mut Vec<Device>, group: &IommuGroup) -> (r: Result<
    (),
    SysfsError,
>)
    requires
        distinct(old(devices).deep_view(), device_key()),
    ensures
        distinct(final(devices).deep_view(), device_key()),
        match r {
            Ok(_) => add_devices(fs@, old(devices).deep_view(), group.id, group.devices.deep_view())
                == Ok::<Seq<DeviceView>, SysfsErrorView>(final(devices).deep_view()),
            Err(e) => add_devices(
                fs@,
                old(devices).deep_view(),
                group.id,
                group.devices.deep_view(),
            ) == Err::<Seq<DeviceView>, SysfsErrorView>(e@),
        },
{
    let ghost addresses = group.devices.deep_view();
    let mut i: usize = 0;
    assert(addresses.skip(0) == addresses);
    while i < group.devices.len()
        invariant
            i <= group.devices.len(),
            addresses == group.devices.deep_view(),
            distinct(devices.deep_view(), device_key()),
            add_devices(fs@, old(devices).deep_view(), group.id, addresses) == add_devices(
                fs@,
                devices.deep_view(),
                group.id,
                addresses.skip(i as int),
            ),
        decreases group.devices.len() - i,
    {
        let ghost rest = addresses.skip(i as int);
        assert(rest.drop_first() == addresses.skip(i + 1));
        match read_device(fs, group.id, group.devices[i].as_str()) {
            Ok(device) => {
                put_device(devices, device);
            },
            Err(e) => {
                return Err(e);
            },
        }
        i = i + 1;
    }
    Ok(())
}

/// The PCI devices that `fs` records, no two of them with the same address.
/// A failure to read a vendor id, a device id or a class code is the result
/// of the whole enumeration.
pub fn read_pci_devices(fs: &Snapshot) -> (r: Result<Vec<Device>, SysfsError>)
    ensures
        outcome(r) == pci_devices(fs@),
        r matches Ok(devices) ==> distinct(devices.deep_view(), device_key()),
{
    let groups = match read_iommu_groups(fs) {
        Ok(groups) => groups,
        Err(e) => {
            return Err(e);
        },
    };
    let mut devices: Vec<Device> = Vec::new();
    assert(devices.deep_view() =~= Seq::<DeviceView>::empty());
    let mut i: usize = 0;
    assert(groups.deep_view().skip(0) == groups.deep_view());
    while i < groups.len()
        invariant
            i <= groups.len(),
            distinct(devices.deep_view(), device_key()),
            pci_devices(fs@) == add_group_devices(
                fs@,
                devices.deep_view(),
                groups.deep_view().skip(i as int),
            ),
        decreases groups.len() - i,
    {
        let ghost rest = groups.deep_view().skip(i as int);
        assert(rest.drop_first() == groups.deep_view().skip(i + 1));
        match read_group_devices(fs, &mut devices, &groups[i]) {
            Ok(_) => {},
            Err(e) => {
                return Err(e);
            },
        }
        i = i + 1;
    }
    Ok(devices)
}

/// The write that asks the kernel to scan the whole PCI bus again.
pub open spec fn rescan_write() -> FileWriteView {
    FileWriteView { path: rescan_file(), value: "1"@ }
}

/// The write that starts a rescan of the PCI bus. It reaches every device
/// on the bus, not one slot.
pub fn pci_rescan() -> (write: FileWrite)
    ensures
        write@ == rescan_write(),
{
    FileWrite { path: rescan_path(), value: String::from_str("1") }
}

/// The text that the debug format gives for a string: the string between
/// quotes, with those of its characters escaped that the format escapes.
pub uninterp spec fn debug_string(text: Seq<char>) -> Seq<char>;

/// `format!` of std with `{:?}`, on a string. The contract gives the text a
/// name and claims that it depends on the characters of the string alone.
#[verifier::external_body]
fn debug_text(text: &str) -> (quoted: String)
    ensures
        quoted@ == debug_string(text@),
{
    format!("{:?}", text)
}

/// `items` with a comma and a space between each two of them.
pub open spec fn joined(items: Seq<Seq<char>>) -> Seq<char>
    decreases items.len(),
{
    if items.len() == 0 {
        Seq::empty()
    } else if items.len() == 1 {
        items[0]
    } else {
        joined(items.drop_last()) + ", "@ + items.last()
    }
}

/// `items` as a list: between brackets, a comma and a space between each
/// two of them.
pub open spec fn bracketed_list(items: Seq<Seq<char>>) -> Seq<char> {
    "["@ + joined(items) + "]"@
}

/// `items` as a list, between brackets.
pub fn bracketed(items: &Vec<String>) -> (text: String)
    ensures
        text@ == bracketed_list(items.deep_view()),
{
    let mut text = String::from_str("[");
    let mut i: usize = 0;
    while i < items.len()
        invariant
            i <= items.len(),
            text@ == "["@ + joined(items.deep_view().take(i as int)),
        decreases items.len() - i,
    {
        let ghost before = items.deep_view().take(i as int);
        let ghost next = items.deep_view().take(i + 1);
        assert(next.drop_last() =~= before);
        if i > 0 {
            text.append(", ");
        }
        text.append(items[i].as_str());
        i = i + 1;
    }
    assert(items.deep_view().take(i as int) == items.deep_view());
    text.append("]");
    text
}

/// The devices of a group as the listing shows them: the debug text of
/// each address, as a list.
pub open spec fn debug_list(devices: Seq<Seq<char>>) -> Seq<char> {
    bracketed_list(Seq::new(devices.len(), |i: int| debug_string(devices[i])))
}

fn devices_text(devices: &Vec<String>) -> (text: String)
    ensures
        text@ == debug_list(devices.deep_view()),
{
    let mut quoted: Vec<String> = Vec::new();
    let mut i: usize = 0;
    while i < devices.len()
        invariant
            i <= devices.len(),
            quoted.deep_view() == Seq::new(
                i as nat,
                |j: int| debug_string(devices.deep_view()[j]),
            ),
        decreases devices.len() - i,
    {
        let ghost before = quoted.deep_view();
        let text = debug_text(devices[i].as_str());
        quoted.push(text);
        assert(quoted.deep_view() =~= before.push(text@));
        i = i + 1;
    }
    bracketed(&quoted)
}

/// The line that lists a group: its number, then its devices as `devices`
/// shows them.
pub open spec fn group_line_of(id: usize, devices: Seq<char>) -> Seq<char> {
    "Group "@ + decimal(id as nat) + ": "@ + devices
}

/// The line that lists the group `id`, whose devices `devices` shows.
pub fn group_line(id: usize, devices: &str) -> (line: String)
    ensures
        line@ == group_line_of(id, devices@),
{
    String::from_str("Group ").concat(number_text(id).as_str()).concat(": ").concat(devices)
}

/// The lines that list `groups`, one for each group.
pub open spec fn group_lines(groups: Seq<IommuGroupView>) -> Seq<Seq<char>> {
    Seq::new(groups.len(), |i: int| group_line_of(groups[i].id, debug_list(groups[i].devices)))
}

/// The text that lists `groups`, line by line: a heading, an empty line and
/// the groups, or one line that says that there are none.
pub open spec fn group_report(groups: Seq<IommuGroupView>) -> Seq<Seq<char>> {
    if groups.len() == 0 {
        seq!["No IOMMU groups found."@]
    } else {
        seq!["IOMMU groups detected:"@, ""@] + group_lines(groups)
    }
}

/// The lines that list the IOMMU groups that `fs` records.
pub fn list_iommu_groups(fs: &Snapshot) -> (r: Result<Vec<String>, SysfsError>)
    ensures
        outcome(r) == match iommu_groups(fs@) {
            Ok(groups) => Ok::<Seq<Seq<char>>, SysfsErrorView>(group_report(groups)),
            Err(e) => Err(e),
        },
{
    let groups = match read_iommu_groups(fs) {
        Ok(groups) => groups,
        Err(e) => {
            return Err(e);
        },
    };
    let mut report: Vec<String> = Vec::new();
    if groups.len() == 0 {
        report.push(String::from_str("No IOMMU groups found."));
        assert(report.deep_view() =~= group_report(groups.deep_view()));
        return Ok(report);
    }
    report.push(String::from_str("IOMMU groups detected:"));
    report.push(String::from_str(""));
    let mut i: usize = 0;
    while i < groups.len()
        invariant
            i <= groups.len(),
            report.deep_view() == seq!["IOMMU groups detected:"@, ""@] + group_lines(
                groups.deep_view(),
            ).take(i as int),
        decreases groups.len() - i,
    {
        let ghost before = report.deep_view();
        let line = group_line(groups[i].id, devices_text(&groups[i].devices).as_str());
        report.push(line);
        assert(report.deep_view() =~= before.push(line@));
        i = i + 1;
    }
    assert(group_lines(groups.deep_view()).take(i as int) == group_lines(groups.deep_view()));
    Ok(report)
}

/// The lines that list one device, the last of them empty.
pub open spec fn device_lines(device: DeviceView) -> Seq<Seq<char>> {
    seq![
        "Device: "@ + device.pci_address,
        "| IOMMU GROUP: "@ + decimal(device.iommu_group as nat),
        "| VENDOR_ID: "@ + device.vendor_id,
        "| DEVICE_ID: "@ + device.device_id,
        "| DRIVER: "@ + device.driver,
        ""@,
    ]
}

/// The lines that list each of `devices` in turn.
pub open spec fn all_device_lines(devices: Seq<DeviceView>) -> Seq<Seq<char>>
    decreases devices.len(),
{
    if devices.len() == 0 {
        Seq::empty()
    } else {
        all_device_lines(devices.drop_last()) + device_lines(devices.last())
    }
}

/// The text that lists `devices`, line by line, or one line that says that
/// there are none.
pub open spec fn device_report(devices: Seq<DeviceView>) -> Seq<Seq<char>> {
    if devices.len() == 0 {
        seq!["No PCI devices found."@]
    } else {
        all_device_lines(devices)
    }
}

/// The lines that list the PCI devices that `fs` records.
pub fn list_pci_devices(fs: &Snapshot) -> (r: Result<Vec<String>, SysfsError>)
    ensures
        outcome(r) == match pci_devices(fs@) {
            Ok(devices) => Ok::<Seq<Seq<char>>, SysfsErrorView>(device_report(devices)),
            Err(e) => Err(e),
        },
{
    let devices = match read_pci_devices(fs) {
        Ok(devices) => devices,
        Err(e) => {
            return Err(e);
        },
    };
    let mut report: Vec<String> = Vec::new();
    if devices.len() == 0 {
        report.push(String::from_str("No PCI devices found."));
        assert(report.deep_view() =~= device_report(devices.deep_view()));
        return Ok(report);
    }
    let mut i: usize = 0;
    while i < devices.len()
        invariant
            i <= devices.len(),
            report.deep_view() == all_device_lines(devices.deep_view().take(i as int)),
        decreases devices.len() - i,
    {
        let device = &devices[i];
        report.push(String::from_str("Device: ").concat(device.pci_address.as_str()));
        report.push(
            String::from_str("| IOMMU GROUP: ").concat(number_text(device.iommu_group).as_str()),
        );
        report.push(String::from_str("| VENDOR_ID: ").concat(device.vendor_id.as_str()));
        report.push(String::from_str("| DEVICE_ID: ").concat(device.device_id.as_str()));
        report.push(String::from_str("| DRIVER: ").concat(device.driver.as_str()));
        report.push(String::from_str(""));
        assert(devices.deep_view().take(i + 1).drop_last() == devices.deep_view().take(i as int));
        i = i + 1;
    }
    assert(devices.deep_view().take(i as int) == devices.deep_view());
    Ok(report)
}

} // verus!
