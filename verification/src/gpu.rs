//! Classification of the display devices, and the writes that detach a
//! device from its driver or attach it again.

use vstd::prelude::*;
use crate::iommu::{pci_rescan, rescan_write, Device, DeviceView};
use crate::sysfs::{
    device_attribute, device_path, dir_at, file_at, link_at, outcome, render_link,
    render_link_path, slot_attribute, slot_path, slots_dir, slots_path, DirEntry, DirEntryView,
    FileWrite, FileWriteView, Snapshot, SysfsError, SysfsErrorView, Tree,
};
use crate::text::{
    decimal, number_text, parse_number, parse_usize, same_text, strip_function, strip_prefix, trim,
    trimmed, without_function, without_prefix,
};

verus! {

/// A display device.
#[derive(Clone, Debug, PartialEq, Eq)]
pub struct Gpu {
    id: usize,
    name: String,
    pci: String,
    render: String,
    default: bool,
    slot: usize,
}

/// A [`Gpu`] as a mathematical value.
pub struct GpuView {
    /// The position of the GPU in the enumeration that found it.
    pub id: usize,
    pub name: Seq<char>,
    /// The PCI address.
    pub pci: Seq<char>,
    /// The path of the render node, or a text that says it was not found.
    pub render: Seq<char>,
    /// Whether the firmware used this GPU for the display at boot.
    pub default: bool,
    /// The number of the hotplug slot, 0 where none was found.
    pub slot: usize,
}

impl View for Gpu {
    type V = GpuView;

    closed spec fn view(&self) -> GpuView {
        GpuView {
            id: self.id,
            name: self.name@,
            pci: self.pci@,
            render: self.render@,
            default: self.default,
            slot: self.slot,
        }
    }
}

impl DeepView for Gpu {
    type V = GpuView;

    open spec fn deep_view(&self) -> GpuView {
        self@
    }
}

impl Gpu {
    /// The PCI address of the GPU.
    pub fn pci_address(&self) -> (address: &str)
        ensures
            address@ == self@.pci,
    {
        self.pci.as_str()
    }

    /// Whether this is the GPU that the firmware used at boot.
    pub fn is_default(&self) -> (default: bool)
        ensures
            default == self@.default,
    {
        self.default
    }

    /// The number that the enumeration gave the GPU.
    pub fn id(&self) -> (id: usize)
        ensures
            id == self@.id,
    {
        self.id
    }

    /// The display name of the device.
    pub fn name(&self) -> (name: &str)
        ensures
            name@ == self@.name,
    {
        self.name.as_str()
    }

    /// The path of the render node, such as `/dev/dri/renderD128`.
    pub fn render_node(&self) -> (path: &str)
        ensures
            path@ == self@.render,
    {
        self.render.as_str()
    }

    /// The number of the PCI slot.
    pub fn slot(&self) -> (slot: usize)
        ensures
            slot == self@.slot,
    {
        self.slot
    }
}

/// The text that stands for a render node that could not be resolved.
pub open spec fn render_node_missing() -> Seq<char> {
    "Error: couldn't read symlink for render node"@
}

/// The render node of the device at `address`: the target of its link, with
/// the `../` that starts it made into the directory of the render nodes.
pub open spec fn render_node_of(tree: Tree, address: Seq<char>) -> Seq<char> {
    match link_at(tree, render_link(address)) {
        Ok(target) => match without_prefix(target, "../"@) {
            Some(name) => "/dev/dri/"@ + name,
            None => target,
        },
        Err(_) => render_node_missing(),
    }
}

/// The path of the render node of the device at `pci_address`. A link that
/// cannot be read gives a text that says so, never a failure.
pub fn render_node_path(fs: &Snapshot, pci_address: &str) -> (path: String)
    ensures
        path@ == render_node_of(fs@, pci_address@),
{
    let link = render_link_path(pci_address);
    match fs.read_link(link.as_str()) {
        Ok(target) => match strip_prefix(target.as_str(), "../") {
            Some(name) => String::from_str("/dev/dri/").concat(name.as_str()),
            None => target,
        },
        Err(_) => String::from_str("Error: couldn't read symlink for render node"),
    }
}

/// Whether the slot whose directory is named `name` has a number for a name
/// and records the address `short`.
pub open spec fn slot_matches(tree: Tree, name: Seq<char>, short: Seq<char>) -> bool {
    &&& parse_usize(name) is Some
    &&& match file_at(tree, slot_attribute(name, "address"@)) {
        Ok(text) => trim(text) == short,
        Err(_) => false,
    }
}

/// The number of the first slot among `entries` that matches `short`.
pub open spec fn find_slot(tree: Tree, entries: Seq<DirEntryView>, short: Seq<char>) -> Result<
    usize,
    SysfsErrorView,
>
    decreases entries.len(),
{
    if entries.len() == 0 {
        Err(SysfsErrorView::SlotNotFound)
    } else {
        match entries[0] {
            DirEntryView::Unreadable(e) => Err(e),
            DirEntryView::NotUnicode => find_slot(tree, entries.drop_first(), short),
            DirEntryView::Name(name) => if slot_matches(tree, name, short) {
                Ok(parse_usize(name)->Some_0)
            } else {
                find_slot(tree, entries.drop_first(), short)
            },
        }
    }
}

/// The number of the hotplug slot of the device at `address`: the first
/// slot that records the address without its function suffix.
pub open spec fn slot_of(tree: Tree, address: Seq<char>) -> Result<usize, SysfsErrorView> {
    match dir_at(tree, slots_dir()) {
        Ok(entries) => find_slot(tree, entries, without_function(address)),
        Err(e) => Err(e),
    }
}

fn matches_slot(fs: &Snapshot, name: &str, short: &str) -> (found: Option<usize>)
    ensures
        found is Some == slot_matches(fs@, name@, short@),
        found is Some ==> found == parse_usize(name@),
{
    match parse_number(name) {
        None => None,
        Some(number) => {
            let path = slot_path(name, "address");
            match fs.read_file(path.as_str()) {
                Ok(text) => if same_text(trimmed(text.as_str()).as_str(), short) {
                    Some(number)
                } else {
                    None
                },
                Err(_) => None,
            }
        },
    }
}

/// The number of the PCI slot of the device at `pci_address`.
pub fn find_pci_slot(fs: &Snapshot, pci_address: &str) -> (r: Result<usize, SysfsError>)
    ensures
        outcome(r) == slot_of(fs@, pci_address@),
{
    let dir = slots_path();
    let short = strip_function(pci_address);
    let entries = match fs.read_dir(dir.as_str()) {
        Ok(entries) => entries,
        Err(e) => {
            return Err(e);
        },
    };
    let mut i: usize = 0;
    assert(entries.deep_view().skip(0) == entries.deep_view());
    while i < entries.len()
        invariant
            i <= entries.len(),
            slot_of(fs@, pci_address@) == find_slot(
                fs@,
                entries.deep_view().skip(i as int),
                short@,
            ),
        decreases entries.len() - i,
    {
        let ghost rest = entries.deep_view().skip(i as int);
        assert(rest.drop_first() == entries.deep_view().skip(i + 1));
        match &entries[i] {
            DirEntry::Unreadable(e) => {
                return Err(e.duplicate());
            },
            DirEntry::NotUnicode => {},
            DirEntry::Name(name) => {
                match matches_slot(fs, name.as_str(), short.as_str()) {
                    Some(number) => {
                        return Ok(number);
                    },
                    None => {},
                }
            },
        }
        i = i + 1;
    }
    Err(SysfsError::SlotNotFound)
}

/// Whether a device of the class `class` is a display device.
pub open spec fn is_display(class: Seq<char>) -> bool {
    class == "0x030000"@
}

/// The GPU that the display device `device` is, under the number `id`. Only
/// its boot flag must be readable: a render node that cannot be resolved
/// gives a text, a slot that is not found gives 0.
pub open spec fn gpu_at(tree: Tree, id: usize, device: DeviceView) -> Result<
    GpuView,
    SysfsErrorView,
> {
    match file_at(tree, device_attribute(device.pci_address, "boot_vga"@)) {
        Err(e) => Err(e),
        Ok(flag) => Ok(
            GpuView {
                id,
                name: device.device_name,
                pci: device.pci_address,
                render: render_node_of(tree, device.pci_address),
                default: trim(flag) == "1"@,
                slot: match slot_of(tree, device.pci_address) {
                    Ok(slot) => slot,
                    Err(_) => 0,
                },
            },
        ),
    }
}

/// `gpus` after the display devices among `devices`, each numbered by its
/// place, up to the first failure.
pub open spec fn add_gpus(tree: Tree, gpus: Seq<GpuView>, devices: Seq<DeviceView>) -> Result<
    Seq<GpuView>,
    SysfsErrorView,
>
    decreases devices.len(),
{
    if devices.len() == 0 {
        Ok(gpus)
    } else if is_display(devices[0].class) {
        match gpu_at(tree, gpus.len() as usize, devices[0]) {
            Ok(gpu) => add_gpus(tree, gpus.push(gpu), devices.drop_first()),
            Err(e) => Err(e),
        }
    } else {
        add_gpus(tree, gpus, devices.drop_first())
    }
}

/// Whether each of `gpus` has its place for a number.
pub open spec fn numbered(gpus: Seq<GpuView>) -> bool {
    forall|i: int| 0 <= i < gpus.len() ==> (#[trigger] gpus[i]).id == i
}

/// The display devices among `devices`, in their order.
pub open spec fn display_devices(devices: Seq<DeviceView>) -> Seq<DeviceView>
    decreases devices.len(),
{
    if devices.len() == 0 {
        Seq::empty()
    } else if is_display(devices[0].class) {
        seq![devices[0]] + display_devices(devices.drop_first())
    } else {
        display_devices(devices.drop_first())
    }
}

proof fn lemma_add_gpus(tree: Tree, before: Seq<GpuView>, devices: Seq<DeviceView>, gpus: Seq<GpuView>)
    requires
        add_gpus(tree, before, devices) == Ok::<Seq<GpuView>, SysfsErrorView>(gpus),
        before.len() + devices.len() <= usize::MAX,
    ensures
        gpus.len() == before.len() + display_devices(devices).len(),
        display_devices(devices).len() <= devices.len(),
        forall|i: int| 0 <= i < before.len() ==> gpus[i] == before[i],
        forall|j: int|
            0 <= j < display_devices(devices).len() ==> gpu_at(
                tree,
                (before.len() + j) as usize,
                #[trigger] display_devices(devices)[j],
            ) == Ok::<GpuView, SysfsErrorView>(gpus[before.len() + j]),
    decreases devices.len(),
{
    if devices.len() > 0 {
        let rest = devices.drop_first();
        if is_display(devices[0].class) {
            let gpu = gpu_at(tree, before.len() as usize, devices[0])->Ok_0;
            let next = before.push(gpu);
            lemma_add_gpus(tree, next, rest, gpus);
        } else {
            lemma_add_gpus(tree, before, rest, gpus);
        }
    }
}

/// The GPUs of a catalog are its display devices: there is one GPU for each
/// display device and none for any other device, in the order of the
/// catalog, and the GPU at each place is made of the display device at that
/// place, with the place for its number.
pub proof fn law_gpus_are_the_display_devices(
    tree: Tree,
    devices: Seq<DeviceView>,
    gpus: Seq<GpuView>,
)
    requires
        devices.len() <= usize::MAX,
        add_gpus(tree, Seq::empty(), devices) == Ok::<Seq<GpuView>, SysfsErrorView>(gpus),
    ensures
        gpus.len() == display_devices(devices).len(),
        forall|i: int|
            0 <= i < gpus.len() ==> gpu_at(tree, i as usize, #[trigger] display_devices(devices)[i])
                == Ok::<GpuView, SysfsErrorView>(gpus[i]),
{
    lemma_add_gpus(tree, Seq::empty(), devices, gpus);
}

fn read_gpu(fs: &Snapshot, id: usize, device: &Device) -> (r: Result<Gpu, SysfsError>)
    ensures
        outcome(r) == gpu_at(fs@, id, device@),
{
    let path = device_path(device.pci_address.as_str(), "boot_vga");
    let flag = match fs.read_file(path.as_str()) {
        Ok(flag) => flag,
        Err(e) => {
            return Err(e);
        },
    };
    let default = same_text(trimmed(flag.as_str()).as_str(), "1");
    let slot = match find_pci_slot(fs, device.pci_address.as_str()) {
        Ok(slot) => slot,
        Err(_) => 0,
    };
    Ok(
        Gpu {
            id,
            name: device.device_name.clone(),
            pci: device.pci_address.clone(),
            render: render_node_path(fs, device.pci_address.as_str()),
            default,
            slot,
        },
    )
}

/// The GPUs among `pci_devices`: the devices of the display class, in the
/// order of the catalog, each with its place for a number. A boot flag that
/// cannot be read is the result of the whole classification.
pub fn list_gpu(fs: &Snapshot, pci_devices: &Vec<Device>) -> (r: Result<Vec<Gpu>, SysfsError>)
    ensures
        outcome(r) == add_gpus(fs@, Seq::empty(), pci_devices.deep_view()),
        r matches Ok(gpus) ==> numbered(gpus.deep_view()),
{
    let mut gpus: Vec<Gpu> = Vec::new();
    assert(gpus.deep_view() =~= Seq::<GpuView>::empty());
    let mut i: usize = 0;
    assert(pci_devices.deep_view().skip(0) == pci_devices.deep_view());
    while i < pci_devices.len()
        invariant
            i <= pci_devices.len(),
            gpus.len() <= i,
            numbered(gpus.deep_view()),
            add_gpus(fs@, Seq::empty(), pci_devices.deep_view()) == add_gpus(
                fs@,
                gpus.deep_view(),
                pci_devices.deep_view().skip(i as int),
            ),
        decreases pci_devices.len() - i,
    {
        let ghost rest = pci_devices.deep_view().skip(i as int);
        let ghost before = gpus.deep_view();
        assert(rest.drop_first() == pci_devices.deep_view().skip(i + 1));
        if same_text(pci_devices[i].class.as_str(), "0x030000") {
            match read_gpu(fs, gpus.len(), &pci_devices[i]) {
                Ok(gpu) => {
                    gpus.push(gpu);
                    assert(gpus.deep_view() =~= before.push(gpu@));
                },
                Err(e) => {
                    return Err(e);
                },
            }
        }
        i = i + 1;
    }
    Ok(gpus)
}

/// Whether the device at `address` reports its deepest sleep state.
pub open spec fn sleeping(tree: Tree, address: Seq<char>) -> Result<bool, SysfsErrorView> {
    match file_at(tree, device_attribute(address, "power_state"@)) {
        Ok(state) => Ok(trim(state) == "D3cold"@),
        Err(e) => Err(e),
    }
}

/// Whether the device at `pci_address` is in the power state D3cold.
pub fn is_sleeping(fs: &Snapshot, pci_address: &str) -> (r: Result<bool, SysfsError>)
    ensures
        outcome(r) == sleeping(fs@, pci_address@),
{
    let path = device_path(pci_address, "power_state");
    match fs.read_file(path.as_str()) {
        Ok(state) => Ok(same_text(trimmed(state.as_str()).as_str(), "D3cold")),
        Err(e) => Err(e),
    }
}

/// The write that switches the power of the slot `slot` on or off.
pub open spec fn power_write(slot: usize, power_on: bool) -> FileWriteView {
    FileWriteView {
        path: slot_attribute(decimal(slot as nat), "power"@),
        value: if power_on {
            "1"@
        } else {
            "0"@
        },
    }
}

/// The write that powers the PCI slot `slot` on or off.
pub fn set_gpu_power(slot: usize, power_on: bool) -> (write: FileWrite)
    ensures
        write@ == power_write(slot, power_on),
{
    let value = if power_on {
        "1"
    } else {
        "0"
    };
    FileWrite {
        path: slot_path(number_text(slot).as_str(), "power"),
        value: String::from_str(value),
    }
}

/// The writes that detach the device at `address`, in the slot `slot`, in
/// the order in which they are to be made: its address to its driver's
/// unbind file, `1` to its remove file, then the slot's power off.
pub open spec fn unbind_writes(address: Seq<char>, slot: usize) -> Seq<FileWriteView> {
    seq![
        FileWriteView { path: device_attribute(address, "driver/unbind"@), value: address },
        FileWriteView { path: device_attribute(address, "remove"@), value: "1"@ },
        power_write(slot, false),
    ]
}

/// What unbinding the device at `address` comes to: its writes where the
/// device sleeps, and no write at all where it does not or where its power
/// state cannot be read.
pub open spec fn unbind_plan(tree: Tree, address: Seq<char>, slot: usize) -> Result<
    Seq<FileWriteView>,
    SysfsErrorView,
> {
    match sleeping(tree, address) {
        Ok(true) => Ok(unbind_writes(address, slot)),
        Ok(false) => Err(SysfsErrorView::NotSleeping),
        Err(e) => Err(e),
    }
}

/// The writes that unbind the device at `pci_address` from its driver, take
/// it off the bus and power its slot down. They are to be made in order and
/// the first that fails ends the sequence: what was written stays written.
/// A device that is not in D3cold is refused with `NotSleeping`, and nothing
/// is to be written.
pub fn unbind_gpu(fs: &Snapshot, pci_address: &str, slot: usize) -> (r: Result<
    Vec<FileWrite>,
    SysfsError,
>)
    ensures
        outcome(r) == unbind_plan(fs@, pci_address@, slot),
{
    match is_sleeping(fs, pci_address) {
        Ok(true) => {},
        Ok(false) => {
            return Err(SysfsError::NotSleeping);
        },
        Err(e) => {
            return Err(e);
        },
    }
    let mut writes: Vec<FileWrite> = Vec::new();
    writes.push(
        FileWrite {
            path: device_path(pci_address, "driver/unbind"),
            value: String::from_str(pci_address),
        },
    );
    writes.push(FileWrite { path: device_path(pci_address, "remove"), value: String::from_str("1") });
    writes.push(set_gpu_power(slot, false));
    assert(writes.deep_view() =~= unbind_writes(pci_address@, slot));
    Ok(writes)
}

/// The writes that attach the device in the slot `slot` again, in the order
/// in which they are to be made: the slot's power on, then the rescan.
pub open spec fn bind_writes(slot: usize) -> Seq<FileWriteView> {
    seq![power_write(slot, true), rescan_write()]
}

/// What is said once the rescan has been asked for.
pub open spec fn bind_status() -> Seq<char> {
    "Rescan issued; verification not yet implemented"@
}

/// The writes that power the slot `slot` on and then rescan the PCI bus,
/// with the text that acknowledges them. The rescan covers the whole bus,
/// and which driver attaches is not checked.
pub fn bind_gpu(pci_address: &str, slot: usize) -> (r: (Vec<FileWrite>, String))
    ensures
        r.0.deep_view() == bind_writes(slot),
        r.1@ == bind_status(),
{
    let mut writes: Vec<FileWrite> = Vec::new();
    writes.push(set_gpu_power(slot, true));
    writes.push(pci_rescan());
    (writes, String::from_str("Rescan issued; verification not yet implemented"))
}

/// Whether a driver is bound to the device at `pci_address`: whether its
/// `driver` entry exists.
pub fn is_dgpu_bound(fs: &Snapshot, pci_address: &str) -> (r: Result<bool, SysfsError>)
    ensures
        outcome(r) == Ok::<bool, SysfsErrorView>(
            fs@.contains_key(device_attribute(pci_address@, "driver"@)),
        ),
{
    let path = device_path(pci_address, "driver");
    Ok(fs.is_present(path.as_str()))
}

} // verus!
