//! The record of VMs left running in the background when the app closes, kept
//! in `<app_data>/running.json` so a relaunch can reattach to them.
use vstd::prelude::*;
use crate::vm::{push_text, texts, StorePath};

verus! {

/// Enough to find a previously launched QEMU and reconnect its control and display.
#[derive(Clone, Debug, PartialEq, Eq)]
pub struct PersistedVm {
    pub name: String,
    pub pid: u32,
    pub qmp_port: u16,
    /// SPICE port of the external viewer; 0 in records written before SPICE
    /// support, whose VMs have no SPICE server.
    pub spice_port: u16,
}

/// Where the running-VM record lives: `running.json` in the app data directory.
pub fn path<R>(app_data: R) -> (r: StorePath<R>)
    ensures
        r.root == app_data,
        r.components() == seq!["running.json"@],
{
    let mut parts: Vec<String> = Vec::new();
    assert(texts(parts@) =~= Seq::<Seq<char>>::empty());
    push_text(&mut parts, "running.json".to_owned());
    StorePath { root: app_data, parts }
}

} // verus!
