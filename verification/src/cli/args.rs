//! The command line: global options and subcommands, as the parser hands
//! them over.

use crate::job::executor::ModeOverride;
use vstd::prelude::*;

verus! {

/// A parsed command line.
#[derive(Debug)]
pub struct Cli {
    pub command: Commands,
    pub global: GlobalArgs,
}

/// Options that every subcommand takes.
#[derive(Debug, Clone)]
pub struct GlobalArgs {
    /// The serial port (e.g. COM3 or /dev/ttyUSB0).
    pub port: Option<String>,
    pub serial: Option<String>,
    /// The Sahara loader file; without it the device is assumed to be in
    /// Firehose mode already.
    pub loader: Option<String>,
    /// The serial timeout in milliseconds (default 45000).
    pub timeout: u64,
    pub dry_run: bool,
    /// The log level (-v, -vv).
    pub verbose: u8,
    /// Wait for a device first, for this many seconds (0: forever).
    pub wait_device: Option<u64>,
    /// Do not switch a DIAG device to EDL mode.
    pub no_switch_edl: bool,
    /// Force the device mode.
    pub force_mode: Option<ForceMode>,
}

/// A forced device mode.
#[derive(Debug, Clone, Copy, PartialEq, Eq, Structural)]
pub enum ForceMode {
    /// EDL mode: skip the switch from DIAG.
    Edl,
    /// DIAG mode: send the switch command, then stop.
    Diag,
}

#[derive(Debug)]
pub enum Commands {
    /// List devices, grouped by physical device.
    Devices { watch: Option<u64>, json: bool },
    Info,
    Gpt,
    Dump { partition: String, file: String, resume: bool },
    /// Another name of dump.
    Read { partition: String, file: String, resume: bool },
    Write { partition: String, file: String },
    Erase { partition: String, native_erase: bool },
    Flash { rawprogram: String, patch: Option<String>, image_dir: Option<String>, native_erase: bool },
    Verify { partition: String, file: String },
    Peek { address: String, size: u32, output: Option<String> },
    Poke { address: String, data: String },
    Reboot,
    Xml { xml: Option<String>, file: Option<String> },
    /// Write a rawprogram file for the partitions found.
    GenXml { output: String },
}

/// The log filter for a verbosity count.
pub fn log_filter(verbose: u8) -> (r: &'static str)
    ensures
        r@ == (if verbose == 0 {
            "info"@
        } else if verbose == 1 {
            "debug"@
        } else {
            "trace"@
        }),
{
    if verbose == 0 {
        "info"
    } else if verbose == 1 {
        "debug"
    } else {
        "trace"
    }
}

/// The mode a forced mode overrides with.
pub fn mode_override(f: ForceMode) -> (m: ModeOverride)
    ensures
        m == (match f {
            ForceMode::Edl => ModeOverride::Edl,
            ForceMode::Diag => ModeOverride::Diag,
        }),
{
    match f {
        ForceMode::Edl => ModeOverride::Edl,
        ForceMode::Diag => ModeOverride::Diag,
    }
}

/// The process exit code after waiting for a device failed with
/// `message`: 2 when the device was not found, 1 otherwise.
pub fn wait_exit_code(message: &str) -> (r: i32)
    ensures
        r == (if crate::text::contains_text(message@, "not found"@) {
            2i32
        } else {
            1i32
        }),
{
    if crate::text::str_contains(message, "not found") {
        2
    } else {
        1
    }
}

} // verus!
