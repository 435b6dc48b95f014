//! The command-line surface: a credential and one DNS subcommand.
//!
//! These types carry no parsing themselves; the binary around the library
//! builds them from its argument parser and hands them in as plain values.

use vstd::prelude::*;

verus! {

/// The parsed invocation: the API credential and the chosen command.
pub struct Args {
    /// The provider API token; never echoed back to the operator.
    pub cloudflare_token: String,
    /// The command group chosen on the command line.
    pub cmd: Command,
}

/// The single command group this tool offers.
pub enum Command {
    /// DNS record management within one zone.
    Dns(Dns),
}

/// The DNS command group: exactly one leaf operation per run.
pub struct Dns {
    /// The leaf operation chosen on the command line.
    pub cmd: DnsSubCommand,
}

/// The leaf DNS operations.
#[derive(Clone, Copy, PartialEq, Eq, Structural, Debug)]
pub enum DnsSubCommand {
    /// List the dns records for a zone
    List,
    /// Create a dns record for a zone
    Create,
    /// Delete dns records for a zone
    Delete,
    /// Update a dns record for a zone
    Update,
}

} // verus!
