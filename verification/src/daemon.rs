//! The mode of the host and the transitions between modes.
//!
//! A transition is a conversation: the daemon names the next device to be
//! detached or attached, its caller does that and reports how it went, and
//! the daemon answers with the next device, with the end of the transition,
//! or with the failure that ended it.

use vstd::prelude::*;
use config::Config;
use crate::gpu::{add_gpus, is_dgpu_bound, list_gpu, numbered, Gpu, GpuView};
use crate::iommu::{device_key, distinct, pci_devices, read_pci_devices, Device, DeviceView};
use crate::sysfs::{
    device_attribute, outcome, FileWrite, FileWriteView, Snapshot, SysfsError, SysfsErrorView,
    Tree,
};
use crate::text::{decimal, number_text};

verus! {

/// How the discrete GPUs of the host are used.
#[derive(Clone, Copy, Debug, PartialEq, Eq, Structural)]
pub enum Mode {
    /// The discrete GPUs are detached and powered down.
    Integrated,
    /// The discrete GPUs are powered and attached.
    Hybrid,
    /// The discrete GPUs are left to the host's passthrough drivers.
    Vfio,
}

impl Mode {
    /// The number that stands for the mode on the wire and in the
    /// configuration.
    pub open spec fn code(self) -> u8 {
        match self {
            Mode::Integrated => 0,
            Mode::Hybrid => 1,
            Mode::Vfio => 2,
        }
    }

    /// The mode that `code` stands for.
    pub open spec fn from_code(code: u8) -> Option<Mode> {
        if code == 0 {
            Some(Mode::Integrated)
        } else if code == 1 {
            Some(Mode::Hybrid)
        } else if code == 2 {
            Some(Mode::Vfio)
        } else {
            None
        }
    }

    /// The name of the mode.
    pub open spec fn label(self) -> Seq<char> {
        match self {
            Mode::Integrated => "Integrated"@,
            Mode::Hybrid => "Hybrid"@,
            Mode::Vfio => "VFIO"@,
        }
    }

    /// The number that stands for the mode.
    pub fn to_u8(self) -> (code: u8)
        ensures
            code == self.code(),
            Mode::from_code(code) == Some(self),
    {
        match self {
            Mode::Integrated => 0,
            Mode::Hybrid => 1,
            Mode::Vfio => 2,
        }
    }

    /// The mode that `code` stands for: one for each of 0, 1 and 2.
    pub fn from_u8(code: u8) -> (mode: Option<Mode>)
        ensures
            mode == Mode::from_code(code),
            mode is Some <==> code <= 2,
            mode matches Some(m) ==> m.code() == code,
    {
        if code == 0 {
            Some(Mode::Integrated)
        } else if code == 1 {
            Some(Mode::Hybrid)
        } else if code == 2 {
            Some(Mode::Vfio)
        } else {
            None
        }
    }

    /// The name of the mode.
    pub fn name(self) -> (name: String)
        ensures
            name@ == self.label(),
    {
        match self {
            Mode::Integrated => String::from_str("Integrated"),
            Mode::Hybrid => String::from_str("Hybrid"),
            Mode::Vfio => String::from_str("VFIO"),
        }
    }
}

/// The number of the mode that the daemon starts in: the persisted number
/// cut to eight bits, or that of `Hybrid` where nothing is persisted.
pub fn configured_mode(persisted: Option<i64>) -> (code: u8)
    ensures
        code == match persisted {
            Some(value) => value as u8,
            None => Mode::Hybrid.code(),
        },
        persisted matches Some(value) ==> (0 <= value <= 255 ==> code == value),
{
    match persisted {
        Some(value) => #[verifier::truncate]
        (value as u8),
        None => 1,
    }
}

/// `Config` of the `config` crate: settings as they were read. A value of
/// it is carried through and never looked into.
#[verifier::external_type_specification]
#[verifier::external_body]
pub struct ExConfig(Config);

/// The integers that `settings` hold, by key: a key has an integer where
/// `Config::get_int` succeeds for it, and the integer is what it returns.
pub uninterp spec fn config_integers(settings: Config) -> Map<Seq<char>, i64>;

/// The integer that `settings` hold for the key `mode`.
pub open spec fn persisted_mode(settings: Config) -> Option<i64> {
    if config_integers(settings).contains_key("mode"@) {
        Some(config_integers(settings)["mode"@])
    } else {
        None
    }
}

/// `Config::get_int` of the `config` crate, for the key `mode`. The contract
/// claims that the result is the integer that the settings hold for that
/// key, and none where the call fails: the key is missing, or its value is
/// no integer.
#[verifier::external_body]
fn get_persisted_mode(settings: &Config) -> (value: Option<i64>)
    ensures
        value == (if config_integers(*settings).contains_key("mode"@) {
            Some(config_integers(*settings)["mode"@])
        } else {
            None
        }),
{
    settings.get_int("mode").ok()
}

/// The number of the mode that `settings` configure: see [`configured_mode`].
pub fn mode_from_settings(settings: &Config) -> (code: u8)
    ensures
        code == match persisted_mode(*settings) {
            Some(value) => value as u8,
            None => Mode::Hybrid.code(),
        },
{
    configured_mode(get_persisted_mode(settings))
}

/// The file that holds the persisted mode.
pub open spec fn config_file() -> Seq<char> {
    "/etc/chainsaw.toml"@
}

/// The text of the configuration that persists `mode`.
pub open spec fn config_text(mode: Mode) -> Seq<char> {
    "# Chainsaw Daemon Configuration\n# This file was automatically generated\n\n# GPU Mode: 0 = Integrated, 1 = Hybrid, 2 = VFIO\nmode = "@
        + decimal(mode.code() as nat) + "\n"@
}

/// The write that persists `mode`.
pub open spec fn config_write(mode: Mode) -> FileWriteView {
    FileWriteView { path: config_file(), value: config_text(mode) }
}

/// The path of the file that holds the persisted mode.
pub fn config_path() -> (path: String)
    ensures
        path@ == config_file(),
{
    String::from_str("/etc/chainsaw.toml")
}

/// Why a request for a mode was not carried out.
#[derive(Clone, Debug, PartialEq, Eq)]
pub enum ModeError {
    /// The number stands for no mode.
    InvalidArgument { mode: u8 },
    /// The device at `address` could not be detached.
    Unbind { address: String, cause: SysfsError },
    /// The device at `address` could not be attached.
    Bind { address: String, cause: SysfsError },
    /// The devices of the host could not be enumerated.
    Discovery { cause: SysfsError },
}

/// A [`ModeError`] as a mathematical value.
pub enum ModeErrorView {
    InvalidArgument { mode: u8 },
    Unbind { address: Seq<char>, cause: SysfsErrorView },
    Bind { address: Seq<char>, cause: SysfsErrorView },
    Discovery { cause: SysfsErrorView },
}

impl View for ModeError {
    type V = ModeErrorView;

    open spec fn view(&self) -> ModeErrorView {
        match self {
            ModeError::InvalidArgument { mode } => ModeErrorView::InvalidArgument { mode: *mode },
            ModeError::Unbind { address, cause } => ModeErrorView::Unbind {
                address: address@,
                cause: cause@,
            },
            ModeError::Bind { address, cause } => ModeErrorView::Bind {
                address: address@,
                cause: cause@,
            },
            ModeError::Discovery { cause } => ModeErrorView::Discovery { cause: cause@ },
        }
    }
}

impl DeepView for ModeError {
    type V = ModeErrorView;

    open spec fn deep_view(&self) -> ModeErrorView {
        self@
    }
}

impl ModeErrorView {
    /// The text that describes the error.
    pub open spec fn message(self) -> Seq<char> {
        match self {
            ModeErrorView::InvalidArgument { mode } => "Unknown mode="@ + decimal(mode as nat),
            ModeErrorView::Unbind { address, cause } => "Failed to unbind GPU "@ + address + ": "@
                + cause.message(),
            ModeErrorView::Bind { address, cause } => "Failed to bind GPU "@ + address + ": "@
                + cause.message(),
            ModeErrorView::Discovery { cause } => cause.message(),
        }
    }
}

impl ModeError {
    /// The text that describes the error: the device and the step that
    /// failed, or the number that stands for no mode.
    pub fn message(&self) -> (text: String)
        ensures
            text@ == self@.message(),
    {
        match self {
            ModeError::InvalidArgument { mode } => String::from_str("Unknown mode=").concat(
                number_text(*mode as usize).as_str(),
            ),
            ModeError::Unbind { address, cause } => String::from_str(
                "Failed to unbind GPU ",
            ).concat(address.as_str()).concat(": ").concat(cause.message().as_str()),
            ModeError::Bind { address, cause } => String::from_str("Failed to bind GPU ").concat(
                address.as_str(),
            ).concat(": ").concat(cause.message().as_str()),
            ModeError::Discovery { cause } => cause.message(),
        }
    }
}

/// What is to be done to a device.
#[derive(Clone, Copy, Debug, PartialEq, Eq, Structural)]
pub enum JobKind {
    /// The device is to be detached and its slot powered down.
    Unbind,
    /// The slot is to be powered and the bus scanned again.
    Bind,
}

impl JobKind {
    /// The mode that a transition with jobs of this kind leads to.
    pub open spec fn target(self) -> Mode {
        match self {
            JobKind::Unbind => Mode::Integrated,
            JobKind::Bind => Mode::Hybrid,
        }
    }
}

/// One device of a transition, to be handled by the caller.
#[derive(Clone, Debug, PartialEq, Eq)]
pub struct Job {
    pub kind: JobKind,
    /// The PCI address of the device.
    pub address: String,
    /// The number of the device's slot.
    pub slot: usize,
    /// The place of the device among the daemon's GPUs.
    pub index: usize,
}

/// A [`Job`] as a mathematical value.
pub struct JobView {
    pub kind: JobKind,
    pub address: Seq<char>,
    pub slot: usize,
    pub index: usize,
}

impl View for Job {
    type V = JobView;

    open spec fn view(&self) -> JobView {
        JobView { kind: self.kind, address: self.address@, slot: self.slot, index: self.index }
    }
}

/// The daemon's answer to a request or to a report.
#[derive(Clone, Debug, PartialEq, Eq)]
pub enum Step {
    /// The caller is to carry out the job and report how it went.
    Run(Job),
    /// The transition is over and the mode is set. The caller is to persist
    /// it; a failure to do so is not a failure of the transition.
    Done { message: String, persist: FileWrite },
    /// The transition ended without setting the mode.
    Failed(ModeError),
}

/// A [`Step`] as a mathematical value.
pub enum StepView {
    Run(JobView),
    Done { message: Seq<char>, persist: FileWriteView },
    Failed(ModeErrorView),
}

impl View for Step {
    type V = StepView;

    open spec fn view(&self) -> StepView {
        match self {
            Step::Run(job) => StepView::Run(job@),
            Step::Done { message, persist } => StepView::Done {
                message: message@,
                persist: persist@,
            },
            Step::Failed(error) => StepView::Failed(error@),
        }
    }
}

/// The mode of the host and the GPUs that the transitions act on.
#[derive(Clone, Debug, PartialEq, Eq)]
pub struct Daemon {
    current_mode: Mode,
    gpu_list: Vec<Gpu>,
    pci_devices: Vec<Device>,
}

/// A [`Daemon`] as a mathematical value.
pub struct DaemonView {
    pub mode: Mode,
    pub gpus: Seq<GpuView>,
    pub devices: Seq<DeviceView>,
}

impl View for Daemon {
    type V = DaemonView;

    closed spec fn view(&self) -> DaemonView {
        DaemonView {
            mode: self.current_mode,
            gpus: self.gpu_list.deep_view(),
            devices: self.pci_devices.deep_view(),
        }
    }
}

impl DaemonView {
    /// What holds of every daemon: each GPU has its place for a number, and
    /// no two devices have the same address.
    pub open spec fn well_formed(self) -> bool {
        &&& numbered(self.gpus)
        &&& distinct(self.devices, device_key())
    }
}

impl DeepView for Daemon {
    type V = DaemonView;

    open spec fn deep_view(&self) -> DaemonView {
        self@
    }
}

/// The place of the first GPU at or after `from` that is not the default
/// GPU, or the number of GPUs where there is none.
pub open spec fn next_discrete(gpus: Seq<GpuView>, from: nat) -> nat
    decreases gpus.len() - from,
{
    if from >= gpus.len() {
        gpus.len()
    } else if !gpus[from as int].default {
        from
    } else {
        next_discrete(gpus, from + 1)
    }
}

/// The kind of the jobs of a transition to `target`: a transition to `Vfio`
/// has no jobs.
pub open spec fn job_kind(target: Mode) -> Option<JobKind> {
    match target {
        Mode::Integrated => Some(JobKind::Unbind),
        Mode::Hybrid => Some(JobKind::Bind),
        Mode::Vfio => None,
    }
}

/// What is said when the mode has been set.
pub open spec fn done_message(target: Mode) -> Seq<char> {
    "Set mode to "@ + decimal(target.code() as nat)
}

/// The daemon and its answer when a transition to `target` has dealt with
/// the GPUs before `from`: the job for the next GPU that is not the default
/// GPU, or, when none is left, the target as the new mode.
pub open spec fn proceed(daemon: DaemonView, target: Mode, from: nat) -> (DaemonView, StepView) {
    let i = next_discrete(daemon.gpus, from);
    if i < daemon.gpus.len() && job_kind(target) is Some {
        (
            daemon,
            StepView::Run(
                JobView {
                    kind: job_kind(target)->Some_0,
                    address: daemon.gpus[i as int].pci,
                    slot: daemon.gpus[i as int].slot,
                    index: i as usize,
                },
            ),
        )
    } else {
        (
            DaemonView { mode: target, ..daemon },
            StepView::Done { message: done_message(target), persist: config_write(target) },
        )
    }
}

/// The daemon and its answer after a request for the mode that `mode`
/// stands for.
pub open spec fn after_request(daemon: DaemonView, mode: u8) -> (DaemonView, StepView) {
    match Mode::from_code(mode) {
        Some(target) => proceed(daemon, target, 0),
        None => (daemon, StepView::Failed(ModeErrorView::InvalidArgument { mode })),
    }
}

/// The error of a transition that failed at `job` for the reason `cause`.
pub open spec fn job_error(job: JobView, cause: SysfsErrorView) -> ModeErrorView {
    match job.kind {
        JobKind::Unbind => ModeErrorView::Unbind { address: job.address, cause },
        JobKind::Bind => ModeErrorView::Bind { address: job.address, cause },
    }
}

/// The daemon and its answer after the report `result` on `job`: the first
/// failure ends the transition and leaves the mode as it was.
pub open spec fn after_report(daemon: DaemonView, job: JobView, result: Result<(), SysfsErrorView>) -> (
    DaemonView,
    StepView,
) {
    match result {
        Ok(_) => proceed(daemon, job.kind.target(), (job.index + 1) as nat),
        Err(cause) => (daemon, StepView::Failed(job_error(job, cause))),
    }
}

/// The mode that the hardware is in: `Hybrid` where a driver is bound to
/// the first GPU that is not the default GPU, else `Integrated`.
pub open spec fn hardware_mode(daemon: DaemonView, tree: Tree) -> Mode {
    let i = next_discrete(daemon.gpus, 0);
    if i < daemon.gpus.len() && tree.contains_key(
        device_attribute(daemon.gpus[i as int].pci, "driver"@),
    ) {
        Mode::Hybrid
    } else {
        Mode::Integrated
    }
}

/// The daemon that starts on `tree` with the mode that `initial_mode`
/// stands for.
pub open spec fn started(tree: Tree, initial_mode: u8) -> Result<DaemonView, ModeErrorView> {
    match pci_devices(tree) {
        Err(cause) => Err(ModeErrorView::Discovery { cause }),
        Ok(devices) => match add_gpus(tree, Seq::empty(), devices) {
            Err(cause) => Err(ModeErrorView::Discovery { cause }),
            Ok(gpus) => match Mode::from_code(initial_mode) {
                None => Err(ModeErrorView::InvalidArgument { mode: initial_mode }),
                Some(mode) => Ok(DaemonView { mode, gpus, devices }),
            },
        },
    }
}

impl Daemon {
    /// A daemon for the devices that `fs` records, in the mode that
    /// `initial_mode` stands for.
    pub fn new(initial_mode: u8, fs: &Snapshot) -> (r: Result<Daemon, ModeError>)
        ensures
            outcome(r) == started(fs@, initial_mode),
            r matches Ok(daemon) ==> daemon@.well_formed(),
    {
        let pci_devices = match read_pci_devices(fs) {
            Ok(devices) => devices,
            Err(cause) => {
                return Err(ModeError::Discovery { cause });
            },
        };
        let gpu_list = match list_gpu(fs, &pci_devices) {
            Ok(gpus) => gpus,
            Err(cause) => {
                return Err(ModeError::Discovery { cause });
            },
        };
        match Mode::from_u8(initial_mode) {
            Some(current_mode) => Ok(Daemon { current_mode, gpu_list, pci_devices }),
            None => Err(ModeError::InvalidArgument { mode: initial_mode }),
        }
    }

    /// The write that persists `mode` for the next start.
    pub fn save_mode_to_config(mode: Mode) -> (write: FileWrite)
        ensures
            write@ == config_write(mode),
    {
        let value = String::from_str(
            "# Chainsaw Daemon Configuration\n# This file was automatically generated\n\n# GPU Mode: 0 = Integrated, 1 = Hybrid, 2 = VFIO\nmode = ",
        ).concat(number_text(mode.to_u8() as usize).as_str()).concat("\n");
        FileWrite { path: config_path(), value }
    }

    /// The write that makes the configuration of a first start: it persists
    /// `Hybrid`.
    pub fn default_config() -> (write: FileWrite)
        ensures
            write@ == config_write(Mode::Hybrid),
    {
        Daemon::save_mode_to_config(Mode::Hybrid)
    }

    /// The names of the modes, in the order of their numbers, whatever the
    /// daemon's mode and GPUs.
    pub fn list_modes(&self) -> (names: Vec<String>)
        ensures
            names.deep_view() == seq![
                Mode::Integrated.label(),
                Mode::Hybrid.label(),
                Mode::Vfio.label(),
            ],
    {
        let mut names: Vec<String> = Vec::new();
        names.push(Mode::Integrated.name());
        names.push(Mode::Hybrid.name());
        names.push(Mode::Vfio.name());
        names
    }

    /// The current mode.
    pub fn get_mode(&self) -> (mode: Mode)
        ensures
            mode == self@.mode,
    {
        self.current_mode
    }

    /// The GPUs of the host, as they were found when the daemon started.
    pub fn gpu_list(&self) -> (gpus: &Vec<Gpu>)
        ensures
            gpus.deep_view() == self@.gpus,
    {
        &self.gpu_list
    }

    /// The PCI devices of the host, as they were found when the daemon
    /// started.
    pub fn pci_devices(&self) -> (devices: &Vec<Device>)
        ensures
            devices.deep_view() == self@.devices,
    {
        &self.pci_devices
    }

    fn advance(&mut self, target: Mode, from: usize) -> (step: Step)
        ensures
            (final(self)@, step@) == proceed(old(self)@, target, from as nat),
    {
        let kind = match target {
            Mode::Integrated => Some(JobKind::Unbind),
            Mode::Hybrid => Some(JobKind::Bind),
            Mode::Vfio => None,
        };
        let mut i: usize = from;
        if i > self.gpu_list.len() {
            i = self.gpu_list.len();
        }
        while i < self.gpu_list.len() && self.gpu_list[i].is_default()
            invariant
                i <= self.gpu_list.len(),
                *self == *old(self),
                next_discrete(self@.gpus, from as nat) == next_discrete(self@.gpus, i as nat),
            decreases self.gpu_list.len() - i,
        {
            i = i + 1;
        }
        if i < self.gpu_list.len() {
            if let Some(kind) = kind {
                let gpu = &self.gpu_list[i];
                return Step::Run(
                    Job {
                        kind,
                        address: String::from_str(gpu.pci_address()),
                        slot: gpu.slot(),
                        index: i,
                    },
                );
            }
        }
        self.current_mode = target;
        Step::Done {
            message: String::from_str("Set mode to ").concat(
                number_text(target.to_u8() as usize).as_str(),
            ),
            persist: Daemon::save_mode_to_config(target),
        }
    }

    /// Starts the transition to the mode that `mode` stands for. A number
    /// that stands for no mode is refused and nothing changes. A transition
    /// to `Integrated` detaches, and one to `Hybrid` attaches, each GPU that
    /// is not the default GPU, in the order of the enumeration; one to
    /// `Vfio` touches no device.
    pub fn set_mode(&mut self, mode: u8) -> (step: Step)
        ensures
            (final(self)@, step@) == after_request(old(self)@, mode),
            mode > 2 ==> step@ == StepView::Failed(ModeErrorView::InvalidArgument { mode }),
            step is Done ==> final(self)@.mode.code() == mode,
            !(step is Done) ==> final(self)@ == old(self)@,
            final(self)@.gpus == old(self)@.gpus,
            final(self)@.devices == old(self)@.devices,
    {
        match Mode::from_u8(mode) {
            Some(target) => self.advance(target, 0),
            None => Step::Failed(ModeError::InvalidArgument { mode }),
        }
    }

    /// Goes on with a transition after the caller has carried out `job`.
    pub fn resume(&mut self, job: &Job, result: Result<(), SysfsError>) -> (step: Step)
        ensures
            (final(self)@, step@) == after_report(old(self)@, job@, outcome(result)),
            result is Err ==> step@ == StepView::Failed(job_error(job@, result->Err_0@)),
            step is Done ==> result is Ok && final(self)@.mode == job@.kind.target(),
            !(step is Done) ==> final(self)@ == old(self)@,
            final(self)@.gpus == old(self)@.gpus,
            final(self)@.devices == old(self)@.devices,
    {
        match result {
            Ok(_) => {
                let target = match job.kind {
                    JobKind::Unbind => Mode::Integrated,
                    JobKind::Bind => Mode::Hybrid,
                };
                let from = if job.index < self.gpu_list.len() {
                    job.index + 1
                } else {
                    self.gpu_list.len()
                };
                self.advance(target, from)
            },
            Err(cause) => {
                let address = job.address.clone();
                Step::Failed(
                    match job.kind {
                        JobKind::Unbind => ModeError::Unbind { address, cause },
                        JobKind::Bind => ModeError::Bind { address, cause },
                    },
                )
            },
        }
    }

    /// The mode that the hardware is in, as `fs` shows it.
    pub fn get_current_hardware_mode(&self, fs: &Snapshot) -> (mode: Mode)
        ensures
            mode == hardware_mode(self@, fs@),
    {
        let mut i: usize = 0;
        while i < self.gpu_list.len() && self.gpu_list[i].is_default()
            invariant
                i <= self.gpu_list.len(),
                next_discrete(self@.gpus, 0) == next_discrete(self@.gpus, i as nat),
            decreases self.gpu_list.len() - i,
        {
            i = i + 1;
        }
        if i < self.gpu_list.len() {
            match is_dgpu_bound(fs, self.gpu_list[i].pci_address()) {
                Ok(true) => Mode::Hybrid,
                _ => Mode::Integrated,
            }
        } else {
            Mode::Integrated
        }
    }

    /// Brings the hardware into the configured mode at start: where the
    /// mode of the hardware is not the one that `configured_mode` stands
    /// for, the transition to that mode starts.
    pub fn reconcile(&mut self, configured_mode: u8, fs: &Snapshot) -> (step: Option<Step>)
        ensures
            match step {
                Some(step) => hardware_mode(old(self)@, fs@).code() != configured_mode && (
                    final(self)@,
                    step@,
                ) == after_request(old(self)@, configured_mode),
                None => hardware_mode(old(self)@, fs@).code() == configured_mode && final(self)@
                    == old(self)@,
            },
    {
        if self.get_current_hardware_mode(fs).to_u8() != configured_mode {
            Some(self.set_mode(configured_mode))
        } else {
            None
        }
    }
}

/// Whether each of `reports` is a success.
pub open spec fn all_ok(reports: Seq<Result<(), SysfsErrorView>>) -> bool {
    forall|i: int| 0 <= i < reports.len() ==> (#[trigger] reports[i]) is Ok
}

/// The daemon and its answer once the caller has answered each job with the
/// next of `reports`, until the transition is over or the reports run out.
pub open spec fn run(daemon: DaemonView, step: StepView, reports: Seq<Result<(), SysfsErrorView>>) -> (
    DaemonView,
    StepView,
)
    decreases reports.len(),
{
    if reports.len() == 0 {
        (daemon, step)
    } else {
        match step {
            StepView::Run(job) => {
                let next = after_report(daemon, job, reports[0]);
                run(next.0, next.1, reports.drop_first())
            },
            _ => (daemon, step),
        }
    }
}

/// The daemon and its answer at the end of a transition to the mode that
/// `mode` stands for, with the reports `reports`.
pub open spec fn transition(daemon: DaemonView, mode: u8, reports: Seq<Result<(), SysfsErrorView>>) -> (
    DaemonView,
    StepView,
) {
    let start = after_request(daemon, mode);
    run(start.0, start.1, reports)
}

proof fn lemma_proceed_completes(
    daemon: DaemonView,
    target: Mode,
    from: nat,
    reports: Seq<Result<(), SysfsErrorView>>,
)
    requires
        daemon.gpus.len() <= usize::MAX,
        all_ok(reports),
        reports.len() + from >= daemon.gpus.len(),
    ensures
        run(proceed(daemon, target, from).0, proceed(daemon, target, from).1, reports) == (
            DaemonView { mode: target, ..daemon },
            StepView::Done { message: done_message(target), persist: config_write(target) },
        ),
    decreases daemon.gpus.len() - from,
{
    let i = next_discrete(daemon.gpus, from);
    lemma_next_discrete_bounds(daemon.gpus, from);
    if i < daemon.gpus.len() && job_kind(target) is Some {
        lemma_proceed_completes(daemon, target, i + 1, reports.drop_first());
    }
}

/// The next GPU that is not the default GPU stands at or after `from`, and
/// no further than the end.
proof fn lemma_next_discrete_bounds(gpus: Seq<GpuView>, from: nat)
    ensures
        from <= gpus.len() ==> from <= next_discrete(gpus, from) <= gpus.len(),
        from > gpus.len() ==> next_discrete(gpus, from) == gpus.len(),
        next_discrete(gpus, from) < gpus.len() ==> !gpus[next_discrete(gpus, from) as int].default,
    decreases gpus.len() - from,
{
    if from < gpus.len() && gpus[from as int].default {
        lemma_next_discrete_bounds(gpus, from + 1);
    }
}

proof fn lemma_run_frame(daemon: DaemonView, step: StepView, reports: Seq<Result<(), SysfsErrorView>>)
    requires
        !(step is Done),
    ensures
        run(daemon, step, reports).0.gpus == daemon.gpus,
        run(daemon, step, reports).0.devices == daemon.devices,
        run(daemon, step, reports).1 is Done || run(daemon, step, reports).0 == daemon,
        run(daemon, step, reports).1 matches StepView::Run(job) ==> step is Run && job.kind == step->Run_0.kind,
        run(daemon, step, reports).1 is Done ==> step is Run && run(daemon, step, reports).0.mode == step->Run_0.kind.target(),
    decreases reports.len(),
{
    if reports.len() > 0 {
        if let StepView::Run(job) = step {
            let next = after_report(daemon, job, reports[0]);
            if !(next.1 is Done) {
                lemma_run_frame(next.0, next.1, reports.drop_first());
            }
        }
    }
}

/// A transition to a mode, each of whose jobs succeeds, ends with that mode
/// as the daemon's mode, whatever the mode was before: once the caller has
/// reported as many successes as there are GPUs, `get_mode` gives the mode
/// that was asked for.
pub proof fn law_transition_sets_mode(
    daemon: DaemonView,
    mode: u8,
    reports: Seq<Result<(), SysfsErrorView>>,
)
    requires
        daemon.gpus.len() <= usize::MAX,
        mode <= 2,
        all_ok(reports),
        reports.len() >= daemon.gpus.len(),
    ensures
        transition(daemon, mode, reports).1 is Done,
        transition(daemon, mode, reports).0.mode.code() == mode,
{
    lemma_proceed_completes(daemon, Mode::from_code(mode)->Some_0, 0, reports);
}

/// A number that stands for no mode is refused at once, and the daemon is
/// as it was: `get_mode` gives the mode that it gave before.
pub proof fn law_invalid_mode_is_refused(daemon: DaemonView, mode: u8)
    requires
        mode > 2,
    ensures
        after_request(daemon, mode) == (
            daemon,
            StepView::Failed(ModeErrorView::InvalidArgument { mode }),
        ),
        forall|reports: Seq<Result<(), SysfsErrorView>>| #[trigger]
            transition(daemon, mode, reports) == after_request(daemon, mode),
{
    assert forall|reports: Seq<Result<(), SysfsErrorView>>| #[trigger]
        transition(daemon, mode, reports) == after_request(daemon, mode) by {}
}

/// A transition changes nothing of the daemon but its mode, and the mode
/// only where the transition is done: a transition that failed, or that
/// still awaits a report, leaves the mode as it was, and one that is done
/// has set the mode that was asked for.
pub proof fn law_mode_changes_only_when_done(
    daemon: DaemonView,
    mode: u8,
    reports: Seq<Result<(), SysfsErrorView>>,
)
    ensures
        transition(daemon, mode, reports).0.gpus == daemon.gpus,
        transition(daemon, mode, reports).0.devices == daemon.devices,
        transition(daemon, mode, reports).1 is Done ==> Mode::from_code(mode) == Some(
            transition(daemon, mode, reports).0.mode,
        ),
        !(transition(daemon, mode, reports).1 is Done) ==> transition(daemon, mode, reports).0
            == daemon,
{
    let start = after_request(daemon, mode);
    if !(start.1 is Done) {
        lemma_run_frame(start.0, start.1, reports);
    }
}

/// The jobs of the kind `kind` for the GPUs at or after `from` that are not
/// the default GPU, in the order of the enumeration.
pub open spec fn discrete_jobs(gpus: Seq<GpuView>, kind: JobKind, from: nat) -> Seq<JobView>
    decreases gpus.len() - from,
{
    if from >= gpus.len() {
        Seq::empty()
    } else if gpus[from as int].default {
        discrete_jobs(gpus, kind, from + 1)
    } else {
        seq![
            JobView {
                kind,
                address: gpus[from as int].pci,
                slot: gpus[from as int].slot,
                index: from as usize,
            },
        ] + discrete_jobs(gpus, kind, from + 1)
    }
}

/// The jobs that the daemon hands out from `step` on, while the caller
/// answers each with the next of `reports`.
pub open spec fn jobs_of_run(
    daemon: DaemonView,
    step: StepView,
    reports: Seq<Result<(), SysfsErrorView>>,
) -> Seq<JobView>
    decreases reports.len(),
{
    match step {
        StepView::Run(job) => if reports.len() == 0 {
            seq![job]
        } else {
            let next = after_report(daemon, job, reports[0]);
            seq![job] + jobs_of_run(next.0, next.1, reports.drop_first())
        },
        _ => Seq::empty(),
    }
}

proof fn lemma_discrete_jobs_from_next(gpus: Seq<GpuView>, kind: JobKind, from: nat)
    ensures
        discrete_jobs(gpus, kind, from) == discrete_jobs(gpus, kind, next_discrete(gpus, from)),
    decreases gpus.len() - from,
{
    if from < gpus.len() && gpus[from as int].default {
        lemma_discrete_jobs_from_next(gpus, kind, from + 1);
    }
}

proof fn lemma_jobs_of_proceed(
    daemon: DaemonView,
    kind: JobKind,
    from: nat,
    reports: Seq<Result<(), SysfsErrorView>>,
)
    requires
        daemon.gpus.len() <= usize::MAX,
        all_ok(reports),
        reports.len() + from >= daemon.gpus.len(),
    ensures
        jobs_of_run(
            proceed(daemon, kind.target(), from).0,
            proceed(daemon, kind.target(), from).1,
            reports,
        ) == discrete_jobs(daemon.gpus, kind, from),
    decreases daemon.gpus.len() - from,
{
    let i = next_discrete(daemon.gpus, from);
    lemma_next_discrete_bounds(daemon.gpus, from);
    lemma_discrete_jobs_from_next(daemon.gpus, kind, from);
    if i < daemon.gpus.len() {
        lemma_jobs_of_proceed(daemon, kind, i + 1, reports.drop_first());
    }
}

/// A transition to `Integrated` or to `Hybrid`, each of whose jobs succeeds,
/// hands out one job for each GPU that is not the default GPU, in the order
/// of the enumeration, and none for the default GPU.
pub proof fn law_each_discrete_gpu_gets_a_job(
    daemon: DaemonView,
    kind: JobKind,
    reports: Seq<Result<(), SysfsErrorView>>,
)
    requires
        daemon.gpus.len() <= usize::MAX,
        all_ok(reports),
        reports.len() >= daemon.gpus.len(),
    ensures
        jobs_of_run(
            after_request(daemon, kind.target().code()).0,
            after_request(daemon, kind.target().code()).1,
            reports,
        ) == discrete_jobs(daemon.gpus, kind, 0),
{
    lemma_jobs_of_proceed(daemon, kind, 0, reports);
}

/// A transition to `Vfio` hands out no job, and one to a number that stands
/// for no mode hands out none either.
pub proof fn law_vfio_touches_no_device(
    daemon: DaemonView,
    mode: u8,
    reports: Seq<Result<(), SysfsErrorView>>,
)
    requires
        mode >= 2,
    ensures
        jobs_of_run(after_request(daemon, mode).0, after_request(daemon, mode).1, reports)
            == Seq::<JobView>::empty(),
{
}

proof fn lemma_first_failure(
    daemon: DaemonView,
    kind: JobKind,
    from: nat,
    reports: Seq<Result<(), SysfsErrorView>>,
    k: int,
)
    requires
        daemon.gpus.len() <= usize::MAX,
        0 <= k < discrete_jobs(daemon.gpus, kind, from).len(),
        k < reports.len(),
        forall|i: int| 0 <= i < k ==> (#[trigger] reports[i]) is Ok,
        reports[k] is Err,
    ensures
        run(
            proceed(daemon, kind.target(), from).0,
            proceed(daemon, kind.target(), from).1,
            reports,
        ) == (
            daemon,
            StepView::Failed(
                job_error(discrete_jobs(daemon.gpus, kind, from)[k], reports[k]->Err_0),
            ),
        ),
        jobs_of_run(
            proceed(daemon, kind.target(), from).0,
            proceed(daemon, kind.target(), from).1,
            reports,
        ) == discrete_jobs(daemon.gpus, kind, from).take(k + 1),
    decreases k,
{
    let i = next_discrete(daemon.gpus, from);
    lemma_next_discrete_bounds(daemon.gpus, from);
    lemma_discrete_jobs_from_next(daemon.gpus, kind, from);
    let job = proceed(daemon, kind.target(), from).1->Run_0;
    let rest = reports.drop_first();
    if k == 0 {
        let failed = StepView::Failed(job_error(job, reports[0]->Err_0));
        assert(jobs_of_run(daemon, failed, rest) == Seq::<JobView>::empty());
        assert(run(daemon, failed, rest) == (daemon, failed));
    } else {
        lemma_first_failure(daemon, kind, i + 1, rest, k - 1);
    }
}

/// The first job that fails ends the transition: the error names that
/// job's device and carries the reason, the mode is as it was, and the GPUs
/// after that device get no job.
pub proof fn law_first_failure_ends_the_transition(
    daemon: DaemonView,
    kind: JobKind,
    reports: Seq<Result<(), SysfsErrorView>>,
    k: int,
)
    requires
        daemon.gpus.len() <= usize::MAX,
        0 <= k < discrete_jobs(daemon.gpus, kind, 0).len(),
        k < reports.len(),
        forall|i: int| 0 <= i < k ==> (#[trigger] reports[i]) is Ok,
        reports[k] is Err,
    ensures
        transition(daemon, kind.target().code(), reports) == (
            daemon,
            StepView::Failed(job_error(discrete_jobs(daemon.gpus, kind, 0)[k], reports[k]->Err_0)),
        ),
        jobs_of_run(
            after_request(daemon, kind.target().code()).0,
            after_request(daemon, kind.target().code()).1,
            reports,
        ) == discrete_jobs(daemon.gpus, kind, 0).take(k + 1),
{
    lemma_first_failure(daemon, kind, 0, reports, k);
}


/// Where `Hybrid` is configured and no driver is bound to the first GPU that
/// is not the default GPU, the hardware is not in the configured mode, and
/// the transition that reconciliation starts begins with the job that
/// attaches that GPU.
pub proof fn law_unbound_gpu_is_attached_at_start(daemon: DaemonView, tree: Tree)
    requires
        daemon.gpus.len() <= usize::MAX,
        next_discrete(daemon.gpus, 0) < daemon.gpus.len(),
        !tree.contains_key(
            device_attribute(daemon.gpus[next_discrete(daemon.gpus, 0) as int].pci, "driver"@),
        ),
    ensures
        hardware_mode(daemon, tree).code() != Mode::Hybrid.code(),
        after_request(daemon, Mode::Hybrid.code()) == (
            daemon,
            StepView::Run(
                JobView {
                    kind: JobKind::Bind,
                    address: daemon.gpus[next_discrete(daemon.gpus, 0) as int].pci,
                    slot: daemon.gpus[next_discrete(daemon.gpus, 0) as int].slot,
                    index: next_discrete(daemon.gpus, 0) as usize,
                },
            ),
        ),
{
}

} // verus!
