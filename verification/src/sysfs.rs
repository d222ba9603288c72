//! What was found in the kernel's file tree, held as a value, and the writes
//! that are to be made to it.
//!
//! The library neither reads nor writes a file. Its caller probes the paths
//! that the library names and records the answers in a [`Snapshot`]; the
//! library answers with the [`FileWrite`]s that its caller is to carry out.

use vstd::prelude::*;

verus! {

/// Why an attribute could not be had, or a device not be touched.
#[derive(Clone, Debug, PartialEq, Eq)]
pub enum SysfsError {
    /// Nothing of the kind asked for is recorded at the path.
    NotFound { path: String },
    /// The platform refused; the text is its own description.
    Io { message: String },
    /// The device is not in its deepest sleep state.
    NotSleeping,
    /// No hotplug slot records the device's address.
    SlotNotFound,
    /// An IOMMU group directory has a name that is not Unicode.
    InvalidGroupName,
}

/// A [`SysfsError`] as a mathematical value.
pub enum SysfsErrorView {
    NotFound { path: Seq<char> },
    Io { message: Seq<char> },
    NotSleeping,
    SlotNotFound,
    InvalidGroupName,
}

impl View for SysfsError {
    type V = SysfsErrorView;

    open spec fn view(&self) -> SysfsErrorView {
        match self {
            SysfsError::NotFound { path } => SysfsErrorView::NotFound { path: path@ },
            SysfsError::Io { message } => SysfsErrorView::Io { message: message@ },
            SysfsError::NotSleeping => SysfsErrorView::NotSleeping,
            SysfsError::SlotNotFound => SysfsErrorView::SlotNotFound,
            SysfsError::InvalidGroupName => SysfsErrorView::InvalidGroupName,
        }
    }
}

impl DeepView for SysfsError {
    type V = SysfsErrorView;

    open spec fn deep_view(&self) -> SysfsErrorView {
        self@
    }
}

/// A result with its value and its error seen as mathematical values.
pub open spec fn outcome<T: DeepView, E: DeepView>(r: Result<T, E>) -> Result<T::V, E::V> {
    match r {
        Ok(v) => Ok(v.deep_view()),
        Err(e) => Err(e.deep_view()),
    }
}

impl SysfsErrorView {
    /// The text that describes the error.
    pub open spec fn message(self) -> Seq<char> {
        match self {
            SysfsErrorView::NotFound { path } => "No such file or directory: "@ + path,
            SysfsErrorView::Io { message } => message,
            SysfsErrorView::NotSleeping =>
                "Device is not in sleep state (D3cold), cannot safely unbind"@,
            SysfsErrorView::SlotNotFound => "PCI slot not found"@,
            SysfsErrorView::InvalidGroupName => "Invalid group directory name"@,
        }
    }
}

impl SysfsError {
    /// The text that describes the error.
    pub fn message(&self) -> (text: String)
        ensures
            text@ == self@.message(),
    {
        match self {
            SysfsError::NotFound { path } => {
                String::from_str("No such file or directory: ").concat(path.as_str())
            },
            SysfsError::Io { message } => message.clone(),
            SysfsError::NotSleeping => String::from_str(
                "Device is not in sleep state (D3cold), cannot safely unbind",
            ),
            SysfsError::SlotNotFound => String::from_str("PCI slot not found"),
            SysfsError::InvalidGroupName => String::from_str("Invalid group directory name"),
        }
    }

    /// A copy of the error.
    pub fn duplicate(&self) -> (copy: SysfsError)
        ensures
            copy@ == self@,
    {
        match self {
            SysfsError::NotFound { path } => SysfsError::NotFound { path: path.clone() },
            SysfsError::Io { message } => SysfsError::Io { message: message.clone() },
            SysfsError::NotSleeping => SysfsError::NotSleeping,
            SysfsError::SlotNotFound => SysfsError::SlotNotFound,
            SysfsError::InvalidGroupName => SysfsError::InvalidGroupName,
        }
    }
}

/// One entry of a directory listing.
#[derive(Clone, Debug, PartialEq, Eq)]
pub enum DirEntry {
    /// An entry and its name.
    Name(String),
    /// An entry whose name is not Unicode.
    NotUnicode,
    /// The listing failed at this entry.
    Unreadable(SysfsError),
}

/// A [`DirEntry`] as a mathematical value.
pub enum DirEntryView {
    Name(Seq<char>),
    NotUnicode,
    Unreadable(SysfsErrorView),
}

impl View for DirEntry {
    type V = DirEntryView;

    open spec fn view(&self) -> DirEntryView {
        match self {
            DirEntry::Name(name) => DirEntryView::Name(name@),
            DirEntry::NotUnicode => DirEntryView::NotUnicode,
            DirEntry::Unreadable(e) => DirEntryView::Unreadable(e@),
        }
    }
}

impl DeepView for DirEntry {
    type V = DirEntryView;

    open spec fn deep_view(&self) -> DirEntryView {
        self@
    }
}

/// What a probe of one path found.
#[derive(Clone, Debug, PartialEq, Eq)]
pub enum Node {
    /// A file, with its text.
    File(String),
    /// A symbolic link, with its target.
    Link(String),
    /// A directory, with its entries in the order of the listing.
    Dir(Vec<DirEntry>),
    /// Something that could not be read.
    Unreadable(SysfsError),
}

/// A [`Node`] as a mathematical value.
pub enum NodeView {
    File(Seq<char>),
    Link(Seq<char>),
    Dir(Seq<DirEntryView>),
    Unreadable(SysfsErrorView),
}

impl View for Node {
    type V = NodeView;

    open spec fn view(&self) -> NodeView {
        match self {
            Node::File(text) => NodeView::File(text@),
            Node::Link(target) => NodeView::Link(target@),
            Node::Dir(entries) => NodeView::Dir(entries.deep_view()),
            Node::Unreadable(e) => NodeView::Unreadable(e@),
        }
    }
}

impl DeepView for Node {
    type V = NodeView;

    open spec fn deep_view(&self) -> NodeView {
        self@
    }
}

/// The file tree as a map from each path that exists to what is there.
pub type Tree = Map<Seq<char>, NodeView>;

/// The text of the file at `path`.
pub open spec fn file_at(tree: Tree, path: Seq<char>) -> Result<Seq<char>, SysfsErrorView> {
    if tree.contains_key(path) {
        match tree[path] {
            NodeView::File(text) => Ok(text),
            NodeView::Unreadable(e) => Err(e),
            _ => Err(SysfsErrorView::NotFound { path }),
        }
    } else {
        Err(SysfsErrorView::NotFound { path })
    }
}

/// The target of the symbolic link at `path`.
pub open spec fn link_at(tree: Tree, path: Seq<char>) -> Result<Seq<char>, SysfsErrorView> {
    if tree.contains_key(path) {
        match tree[path] {
            NodeView::Link(target) => Ok(target),
            NodeView::Unreadable(e) => Err(e),
            _ => Err(SysfsErrorView::NotFound { path }),
        }
    } else {
        Err(SysfsErrorView::NotFound { path })
    }
}

/// The entries of the directory at `path`.
pub open spec fn dir_at(tree: Tree, path: Seq<char>) -> Result<Seq<DirEntryView>, SysfsErrorView> {
    if tree.contains_key(path) {
        match tree[path] {
            NodeView::Dir(entries) => Ok(entries),
            NodeView::Unreadable(e) => Err(e),
            _ => Err(SysfsErrorView::NotFound { path }),
        }
    } else {
        Err(SysfsErrorView::NotFound { path })
    }
}

/// One recorded probe.
#[derive(Clone, Debug)]
struct Record {
    path: String,
    node: Node,
}

/// The tree that a sequence of records describes: a later record of a path
/// replaces an earlier one.
spec fn tree_of(records: Seq<Record>) -> Tree
    decreases records.len(),
{
    if records.len() == 0 {
        Map::empty()
    } else {
        tree_of(records.drop_last()).insert(records.last().path@, records.last().node@)
    }
}

/// The answers to the probes made of the file tree.
#[derive(Clone, Debug)]
pub struct Snapshot {
    records: Vec<Record>,
}

impl View for Snapshot {
    type V = Tree;

    closed spec fn view(&self) -> Tree {
        tree_of(self.records@)
    }
}

impl Snapshot {
    /// A snapshot of a tree in which nothing exists.
    pub fn new() -> (fs: Snapshot)
        ensures
            fs@ == Map::<Seq<char>, NodeView>::empty(),
    {
        Snapshot { records: Vec::new() }
    }

    /// Records what was found at `path`, in place of what was recorded there.
    pub fn record(&mut self, path: &str, node: Node)
        ensures
            final(self)@ == old(self)@.insert(path@, node@),
    {
        self.records.push(Record { path: String::from_str(path), node });
        assert(self.records@.drop_last() == old(self).records@);
    }

    /// Records a file with the text `text` at `path`.
    pub fn record_file(&mut self, path: &str, text: &str)
        ensures
            final(self)@ == old(self)@.insert(path@, NodeView::File(text@)),
    {
        self.record(path, Node::File(String::from_str(text)));
    }

    /// Records a symbolic link to `target` at `path`.
    pub fn record_link(&mut self, path: &str, target: &str)
        ensures
            final(self)@ == old(self)@.insert(path@, NodeView::Link(target@)),
    {
        self.record(path, Node::Link(String::from_str(target)));
    }

    /// Records a directory with the entries `entries` at `path`.
    pub fn record_dir(&mut self, path: &str, entries: Vec<DirEntry>)
        ensures
            final(self)@ == old(self)@.insert(path@, NodeView::Dir(entries.deep_view())),
    {
        self.record(path, Node::Dir(entries));
    }

    /// Records that `path` exists and could not be read, with the platform's
    /// description of the failure.
    pub fn record_failure(&mut self, path: &str, message: &str)
        ensures
            final(self)@ == old(self)@.insert(
                path@,
                NodeView::Unreadable(SysfsErrorView::Io { message: message@ }),
            ),
    {
        self.record(path, Node::Unreadable(SysfsError::Io { message: String::from_str(message) }));
    }

    /// What is recorded at `path`.
    pub fn get(&self, path: &str) -> (found: Option<&Node>)
        ensures
            match found {
                Some(node) => self@.contains_key(path@) && self@[path@] == node@,
                None => !self@.contains_key(path@),
            },
    {
        let wanted = String::from_str(path);
        let mut i: usize = self.records.len();
        assert(self.records@.take(i as int) == self.records@);
        while i > 0
            invariant
                i <= self.records.len(),
                wanted@ == path@,
                tree_of(self.records@).contains_key(path@) == tree_of(
                    self.records@.take(i as int),
                ).contains_key(path@),
                tree_of(self.records@).contains_key(path@) ==> tree_of(self.records@)[path@]
                    == tree_of(self.records@.take(i as int))[path@],
            decreases i,
        {
            assert(self.records@.take(i as int).drop_last() == self.records@.take(i - 1));
            i = i - 1;
            if self.records[i].path == wanted {
                return Some(&self.records[i].node);
            }
        }
        None
    }

    /// Whether anything exists at `path`.
    pub fn is_present(&self, path: &str) -> (found: bool)
        ensures
            found == self@.contains_key(path@),
    {
        self.get(path).is_some()
    }

    /// The text of the file at `path`.
    pub fn read_file(&self, path: &str) -> (r: Result<String, SysfsError>)
        ensures
            outcome(r) == file_at(self@, path@),
    {
        match self.get(path) {
            Some(Node::File(text)) => Ok(text.clone()),
            Some(Node::Unreadable(e)) => Err(e.duplicate()),
            _ => Err(SysfsError::NotFound { path: String::from_str(path) }),
        }
    }

    /// The target of the symbolic link at `path`.
    pub fn read_link(&self, path: &str) -> (r: Result<String, SysfsError>)
        ensures
            outcome(r) == link_at(self@, path@),
    {
        match self.get(path) {
            Some(Node::Link(target)) => Ok(target.clone()),
            Some(Node::Unreadable(e)) => Err(e.duplicate()),
            _ => Err(SysfsError::NotFound { path: String::from_str(path) }),
        }
    }

    /// The entries of the directory at `path`.
    pub fn read_dir(&self, path: &str) -> (r: Result<&Vec<DirEntry>, SysfsError>)
        ensures
            outcome(r) == dir_at(self@, path@),
    {
        match self.get(path) {
            Some(Node::Dir(entries)) => Ok(entries),
            Some(Node::Unreadable(e)) => Err(e.duplicate()),
            _ => Err(SysfsError::NotFound { path: String::from_str(path) }),
        }
    }
}

/// One write that the caller is to make: the text `value` into the file at
/// `path`.
#[derive(Clone, Debug, PartialEq, Eq)]
pub struct FileWrite {
    pub path: String,
    pub value: String,
}

/// A [`FileWrite`] as a mathematical value.
pub struct FileWriteView {
    pub path: Seq<char>,
    pub value: Seq<char>,
}

impl View for FileWrite {
    type V = FileWriteView;

    open spec fn view(&self) -> FileWriteView {
        FileWriteView { path: self.path@, value: self.value@ }
    }
}

impl DeepView for FileWrite {
    type V = FileWriteView;

    open spec fn deep_view(&self) -> FileWriteView {
        self@
    }
}

/// The directory that holds one directory for each IOMMU group.
pub open spec fn iommu_root() -> Seq<char> {
    "/sys/kernel/iommu_groups"@
}

/// The directory that lists the devices of the IOMMU group whose directory
/// is named `group`.
pub open spec fn group_devices_dir(group: Seq<char>) -> Seq<char> {
    "/sys/kernel/iommu_groups/"@ + group + "/devices"@
}

/// The attribute `attribute` of the PCI device at `address`.
pub open spec fn device_attribute(address: Seq<char>, attribute: Seq<char>) -> Seq<char> {
    "/sys/bus/pci/devices/"@ + address + "/"@ + attribute
}

/// The file whose writing starts a rescan of the whole PCI bus.
pub open spec fn rescan_file() -> Seq<char> {
    "/sys/bus/pci/rescan"@
}

/// The directory that holds one directory for each hotplug slot.
pub open spec fn slots_dir() -> Seq<char> {
    "/sys/bus/pci/slots"@
}

/// The attribute `attribute` of the hotplug slot whose directory is named
/// `slot`.
pub open spec fn slot_attribute(slot: Seq<char>, attribute: Seq<char>) -> Seq<char> {
    "/sys/bus/pci/slots/"@ + slot + "/"@ + attribute
}

/// The symbolic link to the render node of the device at `address`.
pub open spec fn render_link(address: Seq<char>) -> Seq<char> {
    "/dev/dri/by-path/pci-"@ + address + "-render"@
}

/// The database of PCI vendor and device names.
pub open spec fn pci_database() -> Seq<char> {
    "/usr/share/hwdata/pci.ids"@
}

pub fn iommu_root_path() -> (path: String)
    ensures
        path@ == iommu_root(),
{
    String::from_str("/sys/kernel/iommu_groups")
}

pub fn group_devices_path(group: &str) -> (path: String)
    ensures
        path@ == group_devices_dir(group@),
{
    String::from_str("/sys/kernel/iommu_groups/").concat(group).concat("/devices")
}

pub fn device_path(address: &str, attribute: &str) -> (path: String)
    ensures
        path@ == device_attribute(address@, attribute@),
{
    String::from_str("/sys/bus/pci/devices/").concat(address).concat("/").concat(attribute)
}

pub fn rescan_path() -> (path: String)
    ensures
        path@ == rescan_file(),
{
    String::from_str("/sys/bus/pci/rescan")
}

pub fn slots_path() -> (path: String)
    ensures
        path@ == slots_dir(),
{
    String::from_str("/sys/bus/pci/slots")
}

pub fn slot_path(slot: &str, attribute: &str) -> (path: String)
    ensures
        path@ == slot_attribute(slot@, attribute@),
{
    String::from_str("/sys/bus/pci/slots/").concat(slot).concat("/").concat(attribute)
}

pub fn render_link_path(address: &str) -> (path: String)
    ensures
        path@ == render_link(address@),
{
    String::from_str("/dev/dri/by-path/pci-").concat(address).concat("-render")
}

pub fn pci_database_path() -> (path: String)
    ensures
        path@ == pci_database(),
{
    String::from_str("/usr/share/hwdata/pci.ids")
}


/// The files of the device at `address` that enumeration and classification
/// read: its vendor id, its device id, its class code and its boot flag.
pub open spec fn device_files(address: Seq<char>) -> Seq<Seq<char>> {
    seq![
        device_attribute(address, "vendor"@),
        device_attribute(address, "device"@),
        device_attribute(address, "class"@),
        device_attribute(address, "boot_vga"@),
    ]
}

/// The symbolic links of the device at `address` that enumeration and
/// classification read: its driver and its render node.
pub open spec fn device_links(address: Seq<char>) -> Seq<Seq<char>> {
    seq![device_attribute(address, "driver"@), render_link(address)]
}

/// The paths of the files that are to be probed for the device at
/// `address`.
pub fn device_file_paths(address: &str) -> (paths: Vec<String>)
    ensures
        paths.deep_view() == device_files(address@),
{
    let mut paths: Vec<String> = Vec::new();
    paths.push(device_path(address, "vendor"));
    paths.push(device_path(address, "device"));
    paths.push(device_path(address, "class"));
    paths.push(device_path(address, "boot_vga"));
    paths
}

/// The paths of the symbolic links that are to be probed for the device at
/// `address`.
pub fn device_link_paths(address: &str) -> (paths: Vec<String>)
    ensures
        paths.deep_view() == device_links(address@),
{
    let mut paths: Vec<String> = Vec::new();
    paths.push(device_path(address, "driver"));
    paths.push(render_link_path(address));
    paths
}

/// The path of the file that records the address of the hotplug slot whose
/// directory is named `slot`.
pub fn slot_address_path(slot: &str) -> (path: String)
    ensures
        path@ == slot_attribute(slot@, "address"@),
{
    slot_path(slot, "address")
}

/// The path of the file that reports the power state of the device at
/// `address`.
pub fn power_state_path(address: &str) -> (path: String)
    ensures
        path@ == device_attribute(address@, "power_state"@),
{
    device_path(address, "power_state")
}

} // verus!
