//! A minimal single-disk Linux installer, as verified decisions.
//!
//! The library picks the target disk, lays out and names its partitions, and says which tools
//! run and which files are written to format, mount, populate and configure the new system.
//! The program around it reads the machine's state, hands it over as plain values, and carries
//! the returned commands and actions out in order.
//!
//! - `disks`: the one eligible disk, from the block-device tree and the mount table.
//! - `partition`: the GPT layout, its two backends, and the partition device names.
//! - `install`: formatting, mounting, payload extraction, host name, unmounting.
//! - `hosts`: the `/etc/hostname` and `/etc/hosts` contents.
//! - `users`, `network`, `boot`: accounts, first-boot networking, and boot setup.
//! - `command`: commands, actions and the error type.
//! - `app`, `input`, `ui`, `pixels`: the screen state machine and its input and output.
//! - `text`: string helpers proved against their specifications.
use vstd::prelude::*;

pub mod app;
pub mod boot;
pub mod command;
pub mod disks;
pub mod hosts;
pub mod input;
pub mod install;
pub mod network;
pub mod partition;
pub mod pixels;
pub mod power;
pub mod text;
pub mod ui;
pub mod users;

verus! {

} // verus!
