//! Everything Linux-specific: evdev key codes, the decoding of raw evdev event
//! batches, and the classification of evdev devices.

pub mod device;
pub mod hotplug;
pub mod keymap;
pub mod reader;

use vstd::prelude::*;

verus! {

/// The Linux/evdev backend. Its device discovery and reading are done outside the
/// library; the decoding it applies is in this module.
#[derive(Debug, Clone, Copy, PartialEq, Eq, Default)]
pub struct LinuxBackend;

impl LinuxBackend {
    pub fn new() -> (b: LinuxBackend) {
        LinuxBackend
    }
}

} // verus!
