//! Executor configuration, and the decisions of connecting to a device.


use crate::base::event::EventSink;
use crate::base::types::{clone_opt_string, DeviceInfo, DeviceMode, PartitionInfo, ProgressReporter};
use crate::storage::gpt::{GptEntry, GptHeader, GptTable};
use crate::job::error::JobError;
use crate::job::jobs::JobResult;
use crate::text::{contains_text, lowercased, str_contains, str_eq, str_to_lowercase, to_owned_string};
use std::sync::Arc;
use std::time::Duration;
use vstd::prelude::*;

verus! {

/// How the device's mode is decided.
#[derive(Debug, Clone, Copy, PartialEq, Eq, Structural)]
pub enum ModeOverride {
    /// From the USB interfaces, or the PID.
    Auto,
    /// Treat the device as in EDL mode.
    Edl,
    /// Treat the device as in DIAG mode and switch it to EDL.
    Diag,
}

/// A handle on a spinner an application shows during a long operation.
pub trait SpinnerHandle: Send {
    fn finish(&self);
}

/// Shows the spinners of long operations; an application implements it.
/// `start` shows a spinner with a message and returns a number that names
/// it; `finish` with that number takes it away.
pub trait SpinnerFactory: Send + Sync {
    fn start(&self, message: &str) -> u64;

    fn finish(&self, spinner: u64);
}

/// What receives the progress of long operations.
pub type ProgressFactory = Arc<dyn ProgressReporter>;

/// A value an application attaches to a configuration under a key.
pub trait ExtraValue: Send + Sync {
}

/// A value attached to a configuration.
pub struct ExtraData(pub Box<dyn ExtraValue>);

/// An extra value with its key.
pub type Extra = (String, ExtraData);

/// The extras as a map from key to value: a later entry with the same key
/// takes the place of an earlier one.
pub open spec fn extras_map(s: Seq<Extra>) -> Map<Seq<char>, ExtraData>
    decreases s.len(),
{
    if s.len() == 0 {
        Map::empty()
    } else {
        extras_map(s.drop_last()).insert(s.last().0@, s.last().1)
    }
}

/// The extras without those under `key`, in order.
pub open spec fn without_key(s: Seq<Extra>, key: Seq<char>) -> Seq<Extra>
    decreases s.len(),
{
    if s.len() == 0 {
        s
    } else if s.last().0@ == key {
        without_key(s.drop_last(), key)
    } else {
        without_key(s.drop_last(), key).push(s.last())
    }
}

proof fn lemma_without_key(s: Seq<Extra>, key: Seq<char>)
    ensures
        extras_map(without_key(s, key)) == extras_map(s).remove(key),
    decreases s.len(),
{
    if s.len() == 0 {
        assert(extras_map(s).remove(key) =~= Map::empty());
    } else {
        lemma_without_key(s.drop_last(), key);
        let w = without_key(s.drop_last(), key);
        if s.last().0@ == key {
            assert(extras_map(s).remove(key) =~= extras_map(s.drop_last()).remove(key));
        } else {
            assert(w.push(s.last()).drop_last() =~= w);
            assert(extras_map(w.push(s.last())) =~= extras_map(s).remove(key));
        }
    }
}

/// How the executor finds and drives a device.
pub struct ExecutorConfig {
    pub port: Option<String>,
    pub serial: Option<String>,
    /// The Firehose loader to upload, if any.
    pub loader: Option<String>,
    pub timeout: Duration,
    pub dry_run: bool,
    pub verbose: bool,
    pub max_retries: u32,
    pub event_sink: Option<Arc<dyn EventSink>>,
    /// Shows spinners during long operations.
    pub spinner_factory: Option<Arc<dyn SpinnerFactory>>,
    /// Receives the progress of long operations; the executor keeps one
    /// reporter for all of them.
    pub progress_factory: Option<ProgressFactory>,
    /// Values an application attaches, by key.
    pub extras: Vec<Extra>,
    pub auto_edl_switch: bool,
    pub force_mode: ModeOverride,
}

/// The settings of a configuration as plain values.
pub struct ConfigView {
    pub port: Option<Seq<char>>,
    pub serial: Option<Seq<char>>,
    pub loader: Option<Seq<char>>,
    pub timeout: Duration,
    pub dry_run: bool,
    pub verbose: bool,
    pub max_retries: u32,
    pub event_sink: Option<Arc<dyn EventSink>>,
    pub spinner_factory: Option<Arc<dyn SpinnerFactory>>,
    pub progress_factory: Option<ProgressFactory>,
    pub extras: Map<Seq<char>, ExtraData>,
    pub auto_edl_switch: bool,
    pub force_mode: ModeOverride,
}

pub open spec fn opt_text(s: Option<String>) -> Option<Seq<char>> {
    crate::text::opt_view(s)
}

/// The defaults: no port, serial or loader, a 45 s timeout, three retries,
/// no event sink, spinners, progress or extras, automatic switch from DIAG
/// to EDL, mode from the device.
pub open spec fn is_default_config(c: ConfigView) -> bool {
    &&& c.port is None
    &&& c.serial is None
    &&& c.loader is None
    &&& whole_nanos(c.timeout) == 45_000_000_000
    &&& !c.dry_run
    &&& !c.verbose
    &&& c.max_retries == 3
    &&& c.event_sink is None
    &&& c.spinner_factory is None
    &&& c.progress_factory is None
    &&& c.extras == Map::<Seq<char>, ExtraData>::empty()
    &&& c.auto_edl_switch
    &&& c.force_mode == ModeOverride::Auto
}

impl View for ExecutorConfig {
    type V = ConfigView;

    open spec fn view(&self) -> ConfigView {
        ConfigView {
            port: opt_text(self.port),
            serial: opt_text(self.serial),
            loader: opt_text(self.loader),
            timeout: self.timeout,
            dry_run: self.dry_run,
            verbose: self.verbose,
            max_retries: self.max_retries,
            event_sink: self.event_sink,
            spinner_factory: self.spinner_factory,
            progress_factory: self.progress_factory,
            extras: extras_map(self.extras@),
            auto_edl_switch: self.auto_edl_switch,
            force_mode: self.force_mode,
        }
    }
}

/// The length of a duration in nanoseconds (`Duration::as_nanos`); a
/// duration is its whole seconds and the nanoseconds under a second, so this
/// number fixes it.
pub uninterp spec fn whole_nanos(d: Duration) -> nat;

/// `Duration::from_secs`: a duration of exactly `n` seconds, so
/// `1_000_000_000 * n` nanoseconds.
#[verifier::external_body]
fn duration_from_secs(n: u64) -> (d: Duration)
    ensures
        whole_nanos(d) == n * 1_000_000_000,
{
    Duration::from_secs(n)
}

/// `Duration::as_secs`: the whole seconds of a duration.
#[verifier::external_body]
fn duration_as_secs(d: Duration) -> (r: u64)
    ensures
        r == whole_nanos(d) / 1_000_000_000,
{
    d.as_secs()
}

impl Default for ExecutorConfig {
    fn default() -> (c: Self)
        ensures
            is_default_config(c@),
    {
        ExecutorConfigBuilder::new().build()
    }
}

/// `Arc::clone`: another pointer to the same shared object.
#[verifier::external_body]
fn share<T: ?Sized>(a: &Arc<T>) -> (r: Arc<T>)
    ensures
        r == *a,
{
    Arc::clone(a)
}

/// The same shared object, if any.
fn share_opt<T: ?Sized>(a: &Option<Arc<T>>) -> (r: Option<Arc<T>>)
    ensures
        r == *a,
{
    match a {
        Some(x) => Some(share(x)),
        None => None,
    }
}

impl Clone for ExecutorConfig {
    /// A copy of the settings; the extras are not copied.
    fn clone(&self) -> (c: Self)
        ensures
            c@ == (ConfigView { extras: Map::empty(), ..self@ }),
    {
        let c = ExecutorConfig {
            port: clone_opt_string(&self.port),
            serial: clone_opt_string(&self.serial),
            loader: clone_opt_string(&self.loader),
            timeout: self.timeout,
            dry_run: self.dry_run,
            verbose: self.verbose,
            max_retries: self.max_retries,
            event_sink: share_opt(&self.event_sink),
            spinner_factory: share_opt(&self.spinner_factory),
            progress_factory: share_opt(&self.progress_factory),
            extras: Vec::new(),
            auto_edl_switch: self.auto_edl_switch,
            force_mode: self.force_mode,
        };
        assert(c@.extras =~= Map::empty());
        c
    }
}

impl ExecutorConfig {
    /// A builder that starts from the defaults.
    pub fn builder() -> (b: ExecutorConfigBuilder)
        ensures
            is_default_config(b.spec_config()),
    {
        ExecutorConfigBuilder::new()
    }

    /// The timeout in whole seconds.
    pub fn timeout_secs(&self) -> (r: u64)
        ensures
            r == whole_nanos(self.timeout) / 1_000_000_000,
    {
        duration_as_secs(self.timeout)
    }
}

/// Builds an executor configuration setting by setting.
pub struct ExecutorConfigBuilder {
    config: ExecutorConfig,
}

impl ExecutorConfigBuilder {
    /// The configuration built so far.
    pub closed spec fn spec_config(&self) -> ConfigView {
        self.config@
    }

    pub fn new() -> (b: Self)
        ensures
            is_default_config(b.spec_config()),
    {
        let b = ExecutorConfigBuilder {
            config: ExecutorConfig {
                port: None,
                serial: None,
                loader: None,
                timeout: duration_from_secs(45),
                dry_run: false,
                verbose: false,
                max_retries: 3,
                event_sink: None,
                spinner_factory: None,
                progress_factory: None,
                extras: Vec::new(),
                auto_edl_switch: true,
                force_mode: ModeOverride::Auto,
            },
        };
        assert(b.config@.extras =~= Map::empty());
        b
    }

    pub fn port(self, port: &str) -> (b: Self)
        ensures
            b.spec_config() == (ConfigView { port: Some(port@), ..self.spec_config() }),
    {
        let mut b = self;
        b.config.port = Some(to_owned_string(port));
        b
    }

    pub fn serial(self, serial: &str) -> (b: Self)
        ensures
            b.spec_config() == (ConfigView { serial: Some(serial@), ..self.spec_config() }),
    {
        let mut b = self;
        b.config.serial = Some(to_owned_string(serial));
        b
    }

    /// The Firehose loader file to upload.
    pub fn loader(self, loader: &str) -> (b: Self)
        ensures
            b.spec_config() == (ConfigView { loader: Some(loader@), ..self.spec_config() }),
    {
        let mut b = self;
        b.config.loader = Some(to_owned_string(loader));
        b
    }

    pub fn timeout(self, timeout: Duration) -> (b: Self)
        ensures
            b.spec_config() == (ConfigView { timeout, ..self.spec_config() }),
    {
        let mut b = self;
        b.config.timeout = timeout;
        b
    }

    pub fn dry_run(self, dry_run: bool) -> (b: Self)
        ensures
            b.spec_config() == (ConfigView { dry_run, ..self.spec_config() }),
    {
        let mut b = self;
        b.config.dry_run = dry_run;
        b
    }

    pub fn verbose(self, verbose: bool) -> (b: Self)
        ensures
            b.spec_config() == (ConfigView { verbose, ..self.spec_config() }),
    {
        let mut b = self;
        b.config.verbose = verbose;
        b
    }

    pub fn max_retries(self, max_retries: u32) -> (b: Self)
        ensures
            b.spec_config() == (ConfigView { max_retries, ..self.spec_config() }),
    {
        let mut b = self;
        b.config.max_retries = max_retries;
        b
    }

    /// The sink that receives the executor's events (`None`: none).
    pub fn event_sink(self, sink: Option<Arc<dyn EventSink>>) -> (b: Self)
        ensures
            b.spec_config() == (ConfigView { event_sink: sink, ..self.spec_config() }),
    {
        let mut b = self;
        b.config.event_sink = sink;
        b
    }

    /// What shows spinners during long operations (`None`: nothing).
    pub fn spinner_factory(self, factory: Option<Arc<dyn SpinnerFactory>>) -> (b: Self)
        ensures
            b.spec_config() == (ConfigView { spinner_factory: factory, ..self.spec_config() }),
    {
        let mut b = self;
        b.config.spinner_factory = factory;
        b
    }

    /// What receives the progress of long operations (`None`: nothing).
    pub fn progress_factory(self, reporter: Option<ProgressFactory>) -> (b: Self)
        ensures
            b.spec_config() == (ConfigView { progress_factory: reporter, ..self.spec_config() }),
    {
        let mut b = self;
        b.config.progress_factory = reporter;
        b
    }

    /// Attaches `value` under `key`, in place of any value the key had.
    pub fn extra(self, key: &str, value: ExtraData) -> (b: Self)
        ensures
            b.spec_config() == (ConfigView {
                extras: self.spec_config().extras.insert(key@, value),
                ..self.spec_config()
            }),
    {
        let mut b = self;
        let ghost orig: Seq<Extra> = b.config.extras@;
        let mut rest: Vec<Extra> = Vec::new();
        std::mem::swap(&mut rest, &mut b.config.extras);
        let mut kept: Vec<Extra> = Vec::new();
        while rest.len() > 0
            invariant
                orig.len() >= rest@.len(),
                rest@ == orig.subrange(orig.len() - rest@.len(), orig.len() as int),
                kept@ == without_key(orig.subrange(0, orig.len() - rest@.len()), key@),
            decreases rest@.len(),
        {
            let ghost done: int = orig.len() - rest@.len();
            let e = rest.remove(0);
            assert(orig.subrange(0, done + 1).drop_last() =~= orig.subrange(0, done));
            assert(orig.subrange(0, done + 1).last() == e);
            assert(rest@ =~= orig.subrange(orig.len() - rest@.len(), orig.len() as int));
            if !str_eq(e.0.as_str(), key) {
                kept.push(e);
            }
        }
        assert(orig.subrange(0, orig.len() as int) =~= orig);
        proof {
            lemma_without_key(orig, key@);
        }
        let ghost before = kept@;
        kept.push((to_owned_string(key), value));
        assert(kept@.drop_last() =~= before);
        assert(extras_map(kept@) =~= extras_map(orig).insert(key@, value));
        b.config.extras = kept;
        b
    }

    pub fn auto_edl_switch(self, switch: bool) -> (b: Self)
        ensures
            b.spec_config() == (ConfigView { auto_edl_switch: switch, ..self.spec_config() }),
    {
        let mut b = self;
        b.config.auto_edl_switch = switch;
        b
    }

    /// Overrides the device's mode: `Edl` or `Diag` is used whatever the
    /// USB interfaces or the PID say.
    pub fn force_mode(self, mode: ModeOverride) -> (b: Self)
        ensures
            b.spec_config() == (ConfigView { force_mode: mode, ..self.spec_config() }),
    {
        let mut b = self;
        b.config.force_mode = mode;
        b
    }

    pub fn build(self) -> (c: ExecutorConfig)
        ensures
            c@ == self.spec_config(),
    {
        self.config
    }
}

impl Default for ExecutorConfigBuilder {
    fn default() -> (b: Self)
        ensures
            is_default_config(b.spec_config()),
    {
        ExecutorConfigBuilder::new()
    }
}

/// The device as the session records it once it is in EDL mode: its
/// port, serial, product and description, with the EDL IDs and mode.
pub open spec fn as_edl(d: DeviceInfo) -> DeviceInfo {
    DeviceInfo { pid: 0x9008, vid: 0x05C6, mode: DeviceMode::Edl, ..d }
}

/// The device as the session records it in EDL mode.
pub fn edl_identity(d: &DeviceInfo) -> (r: DeviceInfo)
    ensures
        r == as_edl(*d),
{
    DeviceInfo {
        port: d.port.clone(),
        serial: clone_opt_string(&d.serial),
        product: clone_opt_string(&d.product),
        pid: 0x9008,
        vid: 0x05C6,
        description: clone_opt_string(&d.description),
        mode: DeviceMode::Edl,
    }
}

/// What connecting does with the device found.
#[derive(Debug, Clone, Copy, PartialEq, Eq, Structural)]
pub enum ConnectStep {
    /// Use the device as found.
    UseAsFound,
    /// Record the device as in EDL mode without asking it.
    UseAsEdl,
    /// Switch the device from DIAG to EDL, and stop there.
    SwitchOnly,
    /// Switch the device from DIAG to EDL, find it again, and record it as
    /// in EDL mode.
    SwitchAndFind,
}

/// The step for a device found: a forced mode decides; otherwise a DIAG
/// device is switched when switching is allowed, and refused when not.
pub open spec fn connect_step_of(force: ModeOverride, is_diag: bool, auto_switch: bool) -> Option<ConnectStep> {
    match force {
        ModeOverride::Edl => Some(ConnectStep::UseAsEdl),
        ModeOverride::Diag => Some(ConnectStep::SwitchOnly),
        ModeOverride::Auto => if is_diag {
            if auto_switch {
                Some(ConnectStep::SwitchAndFind)
            } else {
                None
            }
        } else {
            Some(ConnectStep::UseAsFound)
        },
    }
}

/// Decides what connecting does with `device`; a DIAG device with
/// switching turned off is refused.
pub fn connect_step(config: &ExecutorConfig, device: &DeviceInfo) -> (r: Result<ConnectStep, JobError>)
    ensures
        match connect_step_of(config.force_mode, crate::base::types::device_is_diag(*device), config.auto_edl_switch) {
            Some(s) => r == Ok::<ConnectStep, JobError>(s),
            None => r matches Err(JobError::PreconditionFailed { reason }) && reason@
                == "device is in DIAG mode, --no-switch-edl is set"@,
        },
{
    match config.force_mode {
        ModeOverride::Edl => Ok(ConnectStep::UseAsEdl),
        ModeOverride::Diag => Ok(ConnectStep::SwitchOnly),
        ModeOverride::Auto => {
            if device.is_diag() {
                if !config.auto_edl_switch {
                    return Err(
                        JobError::PreconditionFailed {
                            reason: to_owned_string("device is in DIAG mode, --no-switch-edl is set"),
                        },
                    );
                }
                Ok(ConnectStep::SwitchAndFind)
            } else {
                Ok(ConnectStep::UseAsFound)
            }
        },
    }
}

/// The number of LUNs to scan for partition tables: four on UFS storage,
/// one otherwise.
pub fn lun_count(memory_name: &str) -> (r: u8)
    ensures
        r == (if contains_text(lowercased(memory_name@), "ufs"@) {
            4u8
        } else {
            1u8
        }),
{
    let lower = str_to_lowercase(memory_name);
    if str_contains(lower.as_str(), "ufs") {
        4
    } else {
        1
    }
}

/// What a dry run reports instead of running a job.
pub fn dry_run_result() -> (r: JobResult)
    ensures
        r.success,
        r.message@ == "dry-run: parsed successfully"@,
        r.steps_completed == 0,
{
    JobResult { success: true, message: to_owned_string("dry-run: parsed successfully"), steps_completed: 0 }
}

/// What running a job first decides: a dry run reports its result in place
/// of running the job; without a transport the job is refused; otherwise
/// (`None`) the job runs.
pub fn execute_gate(dry_run: bool, has_transport: bool) -> (r: Result<Option<JobResult>, JobError>)
    ensures
        dry_run ==> (r matches Ok(Some(j)) && j.success && j.message@ == "dry-run: parsed successfully"@
            && j.steps_completed == 0),
        !dry_run && !has_transport ==> (r matches Err(JobError::PreconditionFailed { reason }) && reason@
            == "transport not initialized"@),
        !dry_run && has_transport ==> r matches Ok(None),
{
    if dry_run {
        return Ok(Some(dry_run_result()));
    }
    if !has_transport {
        return Err(JobError::PreconditionFailed { reason: to_owned_string("transport not initialized") });
    }
    Ok(None)
}

/// Where a LUN's partition entries lie: their first LBA (2 without a
/// header) and how many sectors they take (the entry bytes rounded up to
/// whole sectors, none without a header).
pub open spec fn entry_area(h: Option<GptHeader>, sector_size: u32) -> (u64, u64) {
    match h {
        Some(x) => (
            x.partition_entry_start_lba,
            ((x.num_partition_entries * x.partition_entry_size + sector_size - 1) / (sector_size as int)) as u64,
        ),
        None => (2, 0),
    }
}

/// Where the partition entries of a table lie.
pub fn entries_location(table: &GptTable, sector_size: u32) -> (r: (u64, u64))
    requires
        sector_size > 0,
        table.header matches Some(h) ==> h.num_partition_entries * h.partition_entry_size <= u32::MAX,
    ensures
        r == entry_area(table.header, sector_size),
{
    match &table.header {
        Some(h) => {
            let bytes: u32 = h.num_partition_entries * h.partition_entry_size;
            let q = bytes / sector_size;
            proof {
                assert(bytes % sector_size != 0 ==> q < u32::MAX) by (nonlinear_arith)
                    requires
                        q == bytes / sector_size,
                        sector_size > 0,
                        bytes <= u32::MAX,
                ;
            }
            let n: u32 = if bytes % sector_size == 0 {
                q
            } else {
                q + 1
            };
            proof {
                if bytes % sector_size == 0 {
                    assert((bytes + sector_size - 1) / (sector_size as int) == q) by (nonlinear_arith)
                        requires
                            q == bytes / sector_size,
                            bytes % sector_size == 0,
                            sector_size > 0,
                    ;
                } else {
                    assert((bytes + sector_size - 1) / (sector_size as int) == q + 1) by (nonlinear_arith)
                        requires
                            q == bytes / sector_size,
                            bytes % sector_size != 0,
                            sector_size > 0,
                    ;
                }
            }
            (h.partition_entry_start_lba, n as u64)
        },
        None => (2, 0),
    }
}

/// The disk size a table's header implies when the loader reported none:
/// the backup header's LBA plus one, for a valid primary table.
pub fn inferred_total_sectors(current: u64, table: &GptTable) -> (r: Option<u64>)
    ensures
        r == (if current == 0 && table.primary_valid && table.header is Some && table.header.unwrap().backup_lba
            < u64::MAX {
            Some((table.header.unwrap().backup_lba + 1) as u64)
        } else {
            None::<u64>
        }),
{
    if current == 0 && table.primary_valid {
        match &table.header {
            Some(h) => {
                if h.backup_lba < u64::MAX {
                    return Some(h.backup_lba + 1);
                }
            },
            None => {},
        }
    }
    None
}

/// The partitions a job sees: name, range and LUN of each entry.
pub fn partition_infos(entries: &Vec<&GptEntry>) -> (r: Vec<PartitionInfo>)
    ensures
        r@.len() == entries@.len(),
        forall|i: int|
            0 <= i < r@.len() ==> (#[trigger] r@[i]).name == entries@[i].name && r@[i].first_lba == entries@[i].first_lba
                && r@[i].last_lba == entries@[i].last_lba && r@[i].physical_partition == entries@[i].physical_partition,
{
    let mut out: Vec<PartitionInfo> = Vec::new();
    let mut i: usize = 0;
    while i < entries.len()
        invariant
            i <= entries@.len(),
            out@.len() == i,
            forall|k: int|
                0 <= k < i ==> (#[trigger] out@[k]).name == entries@[k].name && out@[k].first_lba == entries@[k].first_lba
                    && out@[k].last_lba == entries@[k].last_lba && out@[k].physical_partition
                    == entries@[k].physical_partition,
        decreases entries@.len() - i,
    {
        let e = entries[i];
        out.push(
            PartitionInfo {
                name: e.name.clone(),
                first_lba: e.first_lba,
                last_lba: e.last_lba,
                physical_partition: e.physical_partition,
            },
        );
        i = i + 1;
    }
    out
}

/// The first partition named exactly `name`.
pub fn find_info<'a>(infos: &'a Vec<PartitionInfo>, name: &str) -> (r: Option<&'a PartitionInfo>)
    ensures
        match r {
            Some(p) => exists|i: int|
                0 <= i < infos@.len() && infos@[i] == *p && p.name@ == name@ && forall|k: int|
                    0 <= k < i ==> infos@[k].name@ != name@,
            None => forall|k: int| 0 <= k < infos@.len() ==> infos@[k].name@ != name@,
        },
{
    let mut i: usize = 0;
    while i < infos.len()
        invariant
            i <= infos@.len(),
            forall|k: int| 0 <= k < i ==> infos@[k].name@ != name@,
        decreases infos@.len() - i,
    {
        if crate::text::str_eq(infos[i].name.as_str(), name) {
            return Some(&infos[i]);
        }
        i = i + 1;
    }
    None
}

/// How connecting treats a device: with no forced mode, a device that is
/// not in DIAG mode (an EDL device among them) is used as found, and only a
/// DIAG device is switched, which is refused when switching is off. A
/// switch that stops after sending happens only when DIAG mode is forced,
/// and a device is taken as EDL without asking only when EDL mode is
/// forced.
pub proof fn lemma_connect_decisions(force: ModeOverride, d: DeviceInfo, auto_switch: bool)
    ensures
        force == ModeOverride::Auto && !crate::base::types::device_is_diag(d) ==> connect_step_of(force, crate::base::types::device_is_diag(d), auto_switch)
            == Some(ConnectStep::UseAsFound),
        d.mode == DeviceMode::Edl ==> !crate::base::types::device_is_diag(d),
        connect_step_of(force, crate::base::types::device_is_diag(d), auto_switch) == Some(ConnectStep::SwitchOnly) <==> force
            == ModeOverride::Diag,
        connect_step_of(force, crate::base::types::device_is_diag(d), auto_switch) == Some(ConnectStep::UseAsEdl) <==> force
            == ModeOverride::Edl,
        connect_step_of(force, crate::base::types::device_is_diag(d), auto_switch) == Some(ConnectStep::SwitchAndFind) <==> (force
            == ModeOverride::Auto && crate::base::types::device_is_diag(d) && auto_switch),
        connect_step_of(force, crate::base::types::device_is_diag(d), auto_switch) is None <==> (force == ModeOverride::Auto
            && crate::base::types::device_is_diag(d) && !auto_switch),
{
}

} // verus!
