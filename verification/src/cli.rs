//! The command line.

use vstd::prelude::*;

use crate::text::opt_as_str;
use crate::text::opt_string;
use crate::text::opt_text;

verus! {

/// What the user asked for.
#[derive(Debug)]
pub struct Cli {
    /// Print extra diagnostics while discovering VMs or running the viewer.
    pub verbose: bool,
    pub command: Command,
}

/// The commands.
#[derive(Debug)]
pub enum Command {
    /// List visible QEMU D-Bus VMs.
    List(BusArgs),
    /// Inspect one QEMU D-Bus VM and its exported objects.
    Inspect(InspectArgs),
    /// Check the host and VM for common QD2 setup problems.
    Doctor(DoctorArgs),
    /// Open a GTK4 window for one QEMU D-Bus console.
    Connect(ConnectArgs),
    /// Print the QD2 version.
    Version,
}

/// Which bus to use.
#[derive(Debug)]
pub struct BusArgs {
    /// D-Bus address to connect to instead of the session bus.
    pub address: Option<String>,
}

/// What to inspect.
#[derive(Debug)]
pub struct InspectArgs {
    pub bus: BusArgs,
    /// VM selector: matches the QEMU VM name, UUID, or D-Bus owner.
    pub vm: Option<String>,
}

impl InspectArgs {
    /// The address of the bus, if one was given.
    pub fn address(&self) -> (address: Option<&str>)
        ensures
            opt_text(address) == opt_string(self.bus.address),
    {
        opt_as_str(&self.bus.address)
    }
}

/// What to check.
#[derive(Debug)]
pub struct DoctorArgs {
    pub bus: BusArgs,
    /// VM selector: matches the QEMU VM name, UUID, or D-Bus owner.
    pub vm: Option<String>,
}

impl DoctorArgs {
    /// The address of the bus, if one was given.
    pub fn address(&self) -> (address: Option<&str>)
        ensures
            opt_text(address) == opt_string(self.bus.address),
    {
        opt_as_str(&self.bus.address)
    }
}

/// What to connect to.
#[derive(Debug)]
pub struct ConnectArgs {
    pub bus: BusArgs,
    /// VM selector: matches the QEMU VM name, UUID, or D-Bus owner.
    pub vm: Option<String>,
    /// Console ID to open. Defaults to the first reported console.
    pub console: Option<u32>,
    /// Override viewer hotkeys, for example:
    /// `toggle-fullscreen=ctrl+enter,release-cursor=ctrl+alt`
    pub hotkeys: Option<String>,
}

impl ConnectArgs {
    /// The address of the bus, if one was given.
    pub fn address(&self) -> (address: Option<&str>)
        ensures
            opt_text(address) == opt_string(self.bus.address),
    {
        opt_as_str(&self.bus.address)
    }
}

}
