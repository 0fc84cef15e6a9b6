//! The rules behind the app's commands: what a new or edited VM may be named
//! and configured with, which snapshot names are accepted, how snapshot
//! operations are routed, and the messages the commands report.
use vstd::prelude::*;
use crate::qemu::{derive_mac, mac_for_name};
use crate::text::{contains_any, contains_char, contains_whitespace, has_any, has_ws, trim, trimmed};
use crate::vm::{PortForward, VmConfig};

verus! {

/// The text of an optional string.
pub open spec fn opt_text(o: Option<String>) -> Option<Seq<char>> {
    match o {
        Some(s) => Some(s@),
        None => None,
    }
}

/// The texts held by a result whose success is an optional string.
pub open spec fn folder_result(r: Result<Option<String>, String>) -> Result<Option<Seq<char>>, Seq<char>> {
    match r {
        Ok(o) => Ok(opt_text(o)),
        Err(e) => Err(e@),
    }
}

/// A shared-folder path as the UI sends it, cleaned: trimmed, empty meaning none,
/// and refused when it holds a comma (the path goes into a comma-separated
/// `-drive` option).
pub open spec fn cleaned_folder(path: Option<Seq<char>>) -> Result<Option<Seq<char>>, Seq<char>> {
    match path {
        None => Ok(None),
        Some(p) => {
            let t = trimmed(p);
            if t.len() == 0 {
                Ok(None)
            } else if t.contains(',') {
                Err("Shared-folder path can't contain a comma"@)
            } else {
                Ok(Some(t))
            }
        },
    }
}

/// Normalizes a shared-folder path from the UI.
pub fn clean_shared_folder(path: Option<String>) -> (r: Result<Option<String>, String>)
    ensures
        folder_result(r) == cleaned_folder(opt_text(path)),
{
    let path = match path {
        Some(p) => trim(p.as_str()).to_owned(),
        None => return Ok(None),
    };
    if path.as_str().is_empty() {
        return Ok(None);
    }
    if contains_char(path.as_str(), ',') {
        return Err("Shared-folder path can't contain a comma".to_owned());
    }
    Ok(Some(path))
}

/// The characters a snapshot name may not hold besides whitespace: it goes into
/// a monitor command line (`savevm <tag>`).
pub open spec fn tag_forbidden_chars() -> Seq<char> {
    seq!['/', '\\', ':', '*', '?', '"', '<', '>', '|', '\'']
}

/// Why a snapshot name is refused, if it is.
pub open spec fn tag_error(tag: Seq<char>) -> Option<Seq<char>> {
    if tag.len() == 0 {
        Some("Snapshot name cannot be empty"@)
    } else if has_ws(tag) || has_any(tag, tag_forbidden_chars()) {
        Some("Snapshot name contains invalid characters"@)
    } else {
        None
    }
}

/// Validates a snapshot name.
pub fn validate_tag(tag: &str) -> (r: Result<(), String>)
    ensures
        match r {
            Ok(()) => tag_error(tag@) is None,
            Err(m) => tag_error(tag@) == Some(m@),
        },
{
    if tag.is_empty() {
        return Err("Snapshot name cannot be empty".to_owned());
    }
    let set = "/\\:*?\"<>|'";
    proof {
        reveal_strlit("/\\:*?\"<>|'");
        assert(set@ =~= tag_forbidden_chars());
    }
    if contains_whitespace(tag) || contains_any(tag, set) {
        return Err("Snapshot name contains invalid characters".to_owned());
    }
    Ok(())
}

/// The characters a VM name may not hold: it is also a directory name, and a
/// comma would break QEMU's `-name` option.
pub open spec fn name_forbidden_chars() -> Seq<char> {
    seq!['/', '\\', ':', '*', '?', '"', '<', '>', '|', ',']
}

/// The message for a VM name with a forbidden character.
pub open spec fn bad_name_text() -> Seq<char> {
    "VM name can't contain any of  / \\ : * ? \" < > | ,"@
}

/// The checks a new VM's name and shared folder pass before anything is
/// written, in the order they are made: the trimmed name must not be empty, the
/// shared folder must clean, and the name must hold no forbidden character.
pub open spec fn new_vm_check(name: Seq<char>, folder: Option<Seq<char>>) -> Result<
    (Seq<char>, Option<Seq<char>>),
    Seq<char>,
> {
    let n = trimmed(name);
    if n.len() == 0 {
        Err("VM name cannot be empty"@)
    } else {
        match cleaned_folder(folder) {
            Err(e) => Err(e),
            Ok(f) => if has_any(n, name_forbidden_chars()) {
                Err(bad_name_text())
            } else {
                Ok((n, f))
            },
        }
    }
}

/// The texts held by the result of `check_new_vm`.
pub open spec fn new_vm_result(r: Result<(String, Option<String>), String>) -> Result<
    (Seq<char>, Option<Seq<char>>),
    Seq<char>,
> {
    match r {
        Ok((n, f)) => Ok((n@, opt_text(f))),
        Err(e) => Err(e@),
    }
}

/// Checks the name and shared folder of a VM about to be created, giving the
/// trimmed name and the cleaned folder.
pub fn check_new_vm(name: &str, shared_folder: Option<String>) -> (r: Result<(String, Option<String>), String>)
    ensures
        new_vm_result(r) == new_vm_check(name@, opt_text(shared_folder)),
{
    let name = trim(name);
    if name.is_empty() {
        return Err("VM name cannot be empty".to_owned());
    }
    let folder = match clean_shared_folder(shared_folder) {
        Ok(f) => f,
        Err(e) => return Err(e),
    };
    let set = "/\\:*?\"<>|,";
    proof {
        reveal_strlit("/\\:*?\"<>|,");
        assert(set@ =~= name_forbidden_chars());
    }
    if contains_any(name, set) {
        return Err("VM name can't contain any of  / \\ : * ? \" < > | ,".to_owned());
    }
    Ok((name.to_owned(), folder))
}

/// The settings the create and edit dialogs send.
pub struct VmSettings {
    pub memory_mb: u32,
    pub cpus: u32,
    pub iso_path: Option<String>,
    pub display_adapter: String,
    pub nic_model: String,
    pub port_forwards: Vec<PortForward>,
    pub net_mode: String,
    pub acceleration: String,
    pub shared_folder: Option<String>,
    pub shared_folder_writable: bool,
}

/// An ISO path as stored: an empty path means no ISO.
pub open spec fn kept_iso(iso: Option<String>) -> Option<String> {
    match iso {
        Some(s) => if s@.len() > 0 {
            Some(s)
        } else {
            None
        },
        None => None,
    }
}

fn keep_iso(iso: Option<String>) -> (r: Option<String>)
    ensures
        r == kept_iso(iso),
{
    match iso {
        Some(s) => if s.as_str().is_empty() {
            None
        } else {
            Some(s)
        },
        None => None,
    }
}

/// `cfg` carries the settings `s` (the ISO only when its path is not empty).
pub open spec fn has_settings(cfg: VmConfig, s: VmSettings) -> bool {
    &&& cfg.memory_mb == s.memory_mb
    &&& cfg.cpus == s.cpus
    &&& cfg.iso_path == kept_iso(s.iso_path)
    &&& cfg.display_adapter == s.display_adapter
    &&& cfg.nic_model == s.nic_model
    &&& cfg.port_forwards == s.port_forwards
    &&& cfg.net_mode == s.net_mode
    &&& cfg.acceleration == s.acceleration
    &&& cfg.shared_folder == s.shared_folder
    &&& cfg.shared_folder_writable == s.shared_folder_writable
}

/// `r` is the configuration of a new VM named `name` with its disk image at
/// `disk_path`: the settings, and a stable MAC derived from the name.
pub open spec fn is_new_config(
    r: VmConfig,
    name: String,
    disk_path: String,
    disk_size_gb: u32,
    settings: VmSettings,
) -> bool {
    &&& r.name == name
    &&& r.disk_path == disk_path
    &&& r.disk_size_gb == disk_size_gb
    &&& has_settings(r, settings)
    &&& r.mac_address matches Some(m) && m@ == mac_for_name(name@)
}

/// The configuration of a new VM, with its MAC stored up front so it never
/// changes for this VM.
pub fn new_vm_config(name: String, disk_path: String, disk_size_gb: u32, settings: VmSettings) -> (r: VmConfig)
    ensures
        is_new_config(r, name, disk_path, disk_size_gb, settings),
{
    let mac = derive_mac(name.as_str());
    VmConfig {
        name,
        memory_mb: settings.memory_mb,
        cpus: settings.cpus,
        disk_path,
        disk_size_gb,
        iso_path: keep_iso(settings.iso_path),
        display_adapter: settings.display_adapter,
        nic_model: settings.nic_model,
        port_forwards: settings.port_forwards,
        net_mode: settings.net_mode,
        mac_address: Some(mac),
        acceleration: settings.acceleration,
        shared_folder: settings.shared_folder,
        shared_folder_writable: settings.shared_folder_writable,
    }
}

/// Why edited settings are refused, if they are: too little memory, no CPU, or
/// a shared folder that does not clean; otherwise the cleaned folder.
pub open spec fn update_check(memory_mb: u32, cpus: u32, folder: Option<Seq<char>>) -> Result<
    Option<Seq<char>>,
    Seq<char>,
> {
    if memory_mb < 64 {
        Err("Memory must be at least 64 MB"@)
    } else if cpus < 1 {
        Err("Need at least 1 CPU"@)
    } else {
        cleaned_folder(folder)
    }
}

/// Validates edited settings, giving the cleaned shared folder.
pub fn validate_update(memory_mb: u32, cpus: u32, shared_folder: Option<String>) -> (r: Result<Option<String>, String>)
    ensures
        folder_result(r) == update_check(memory_mb, cpus, opt_text(shared_folder)),
{
    if memory_mb < 64 {
        return Err("Memory must be at least 64 MB".to_owned());
    }
    if cpus < 1 {
        return Err("Need at least 1 CPU".to_owned());
    }
    clean_shared_folder(shared_folder)
}

/// `r` is `cfg` with edited settings: name, disk and size stay, a stored MAC
/// stays, and a VM created before MACs were stored gets its derived MAC.
pub open spec fn is_update_of(r: VmConfig, cfg: VmConfig, settings: VmSettings) -> bool {
    &&& r.name == cfg.name
    &&& r.disk_path == cfg.disk_path
    &&& r.disk_size_gb == cfg.disk_size_gb
    &&& has_settings(r, settings)
    &&& match cfg.mac_address {
        Some(m) => r.mac_address == Some(m),
        None => r.mac_address matches Some(m) && m@ == mac_for_name(cfg.name@),
    }
}

/// An existing VM's configuration with edited settings.
pub fn apply_update(cfg: VmConfig, settings: VmSettings) -> (r: VmConfig)
    ensures
        is_update_of(r, cfg, settings),
{
    let mac_address = match cfg.mac_address {
        Some(m) => Some(m),
        None => Some(derive_mac(cfg.name.as_str())),
    };
    VmConfig {
        name: cfg.name,
        memory_mb: settings.memory_mb,
        cpus: settings.cpus,
        disk_path: cfg.disk_path,
        disk_size_gb: cfg.disk_size_gb,
        iso_path: keep_iso(settings.iso_path),
        display_adapter: settings.display_adapter,
        nic_model: settings.nic_model,
        port_forwards: settings.port_forwards,
        net_mode: settings.net_mode,
        mac_address,
        acceleration: settings.acceleration,
        shared_folder: settings.shared_folder,
        shared_folder_writable: settings.shared_folder_writable,
    }
}

/// The configuration with its install ISO detached, so the VM boots from its
/// disk only.
pub fn detach_iso(cfg: VmConfig) -> (r: VmConfig)
    ensures
        r == (VmConfig { iso_path: None, ..cfg }),
{
    VmConfig { iso_path: None, ..cfg }
}

/// How a snapshot operation is carried out.
pub enum SnapshotPlan {
    /// Not possible now; the message says why.
    Refused(String),
    /// Run this monitor command line over QMP on this port (the VM is running).
    Live { port: u16, command_line: String },
    /// Run `qemu-img` on the stopped VM's disk.
    Offline,
}

/// The refusal for a live snapshot operation under WHPX or HVF.
pub open spec fn live_unsupported_text() -> Seq<char> {
    "Live snapshots aren't supported by this VM's accelerator (WHPX on Windows / HVF on macOS). Shut the VM down first, then snapshot its disk."@
}

/// `plan` runs `verb tag` live on the running VM's QMP port, refuses when live
/// snapshots are not supported (if `checked`), and works offline when the VM is
/// stopped.
pub open spec fn plan_matches(
    plan: SnapshotPlan,
    running_port: Option<u16>,
    live_ok: bool,
    checked: bool,
    verb: Seq<char>,
    tag: Seq<char>,
) -> bool {
    match running_port {
        Some(port) => if checked && !live_ok {
            plan matches SnapshotPlan::Refused(m) && m@ == live_unsupported_text()
        } else {
            plan matches SnapshotPlan::Live { port: p, command_line: c } && p == port && c@ == verb
                + " "@ + tag
        },
        None => plan is Offline,
    }
}

fn plan(running_port: Option<u16>, live_ok: bool, checked: bool, verb: &str, tag: &str) -> (r: SnapshotPlan)
    ensures
        plan_matches(r, running_port, live_ok, checked, verb@, tag@),
{
    match running_port {
        Some(port) => {
            if checked && !live_ok {
                SnapshotPlan::Refused(
                    "Live snapshots aren't supported by this VM's accelerator (WHPX on Windows / HVF on macOS). Shut the VM down first, then snapshot its disk.".to_owned(),
                )
            } else {
                let mut c = verb.to_owned();
                c.append(" ");
                c.append(tag);
                SnapshotPlan::Live { port, command_line: c }
            }
        },
        None => SnapshotPlan::Offline,
    }
}

/// Creating a snapshot: live with `savevm` (RAM included) on a running VM whose
/// accelerator supports it, refused on one whose accelerator does not, and on
/// disk with `qemu-img` for a stopped VM.
pub fn create_snapshot_plan(running_port: Option<u16>, live_ok: bool, tag: &str) -> (r: SnapshotPlan)
    ensures
        plan_matches(r, running_port, live_ok, true, "savevm"@, tag@),
{
    plan(running_port, live_ok, true, "savevm", tag)
}

/// Restoring a snapshot: live with `loadvm` on a running VM whose accelerator
/// supports it, refused on one whose accelerator does not, and on disk for a
/// stopped VM.
pub fn restore_snapshot_plan(running_port: Option<u16>, live_ok: bool, tag: &str) -> (r: SnapshotPlan)
    ensures
        plan_matches(r, running_port, live_ok, true, "loadvm"@, tag@),
{
    plan(running_port, live_ok, true, "loadvm", tag)
}

/// Deleting a snapshot: with `delvm` over QMP when the VM is running (whatever
/// its accelerator), on disk when it is stopped.
pub fn delete_snapshot_plan(running_port: Option<u16>, tag: &str) -> (r: SnapshotPlan)
    ensures
        plan_matches(r, running_port, true, false, "delvm"@, tag@),
{
    plan(running_port, true, false, "delvm", tag)
}

/// The error for a QEMU that exited right after launch, with its exit status
/// and the trimmed log it wrote.
pub open spec fn launch_failure_text(status: Seq<char>, log: Seq<char>) -> Seq<char> {
    if trimmed(log).len() == 0 {
        "QEMU exited immediately ("@ + status + ")."@
    } else {
        "QEMU failed to start ("@ + status + "):\n"@ + trimmed(log)
    }
}

/// Reports a QEMU that exited immediately after launch.
pub fn launch_failure_message(status: &str, log: &str) -> (r: String)
    ensures
        r@ == launch_failure_text(status@, log@),
{
    let msg = trim(log);
    if msg.is_empty() {
        let mut m = "QEMU exited immediately (".to_owned();
        m.append(status);
        m.append(").");
        m
    } else {
        let mut m = "QEMU failed to start (".to_owned();
        m.append(status);
        m.append("):\n");
        m.append(msg);
        m
    }
}

} // verus!
