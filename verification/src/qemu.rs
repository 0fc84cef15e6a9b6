//! QEMU knowledge: acceleration and CPU choice per platform, binary names, the
//! stable MAC address of a VM, and the full QEMU command line for a VM.
use vstd::prelude::*;
use crate::json::{as_array, as_i64, as_str, as_u64, json_array, json_get, json_i64, json_str, json_u64, JsonValue};
use crate::text::{
    decimal, decimal_string, first_line, first_line_of, hex2, push_decimal, push_hex2, str_eq, trim,
    trimmed,
};
use crate::vm::{push_text, texts, PortForward, VmConfig};

verus! {

/// The host platform the app runs on; each picks its own hypervisor.
#[derive(Clone, Copy, Debug, PartialEq, Eq)]
pub enum Platform {
    /// WHPX.
    Windows,
    /// HVF.
    MacOs,
    /// KVM (Linux and every other host).
    Other,
}

/// The name of the platform's hardware accelerator.
pub open spec fn accel_name(platform: Platform) -> Seq<char> {
    match platform {
        Platform::Windows => "whpx"@,
        Platform::MacOs => "hvf"@,
        Platform::Other => "kvm"@,
    }
}

/// The acceleration flag value for the platform.
pub fn accelerator(platform: Platform) -> (r: String)
    ensures
        r@ == accel_name(platform),
{
    match platform {
        Platform::Windows => "whpx".to_owned(),
        Platform::MacOs => "hvf".to_owned(),
        Platform::Other => "kvm".to_owned(),
    }
}

/// The accelerator a VM is launched with: "tcg" when the VM asks for software
/// emulation, the platform's hardware accelerator otherwise.
pub open spec fn effective_accel_name(cfg: VmConfig, platform: Platform) -> Seq<char> {
    if cfg.acceleration@ == "tcg"@ {
        "tcg"@
    } else {
        accel_name(platform)
    }
}

/// The accelerator to launch this VM with.
pub fn effective_accel(cfg: &VmConfig, platform: Platform) -> (r: String)
    ensures
        r@ == effective_accel_name(*cfg, platform),
{
    if str_eq(cfg.acceleration.as_str(), "tcg") {
        "tcg".to_owned()
    } else {
        accelerator(platform)
    }
}

/// Whether savevm/loadvm work while this VM runs: TCG and KVM can migrate
/// vCPU and RAM state; WHPX and HVF cannot.
pub open spec fn live_snapshots_ok(cfg: VmConfig, platform: Platform) -> bool {
    effective_accel_name(cfg, platform) == "tcg"@ || effective_accel_name(cfg, platform)
        == "kvm"@
}

/// Whether snapshots can be taken/restored while this VM is running.
pub fn live_snapshots_supported(cfg: &VmConfig, platform: Platform) -> (r: bool)
    ensures
        r == live_snapshots_ok(*cfg, platform),
{
    let a = effective_accel(cfg, platform);
    str_eq(a.as_str(), "tcg") || str_eq(a.as_str(), "kvm")
}

/// A CPU model safe for the chosen accelerator: TCG and WHPX get the
/// conservative `qemu64`, KVM and HVF the host CPU.
pub open spec fn cpu_model_name(cfg: VmConfig, platform: Platform) -> Seq<char> {
    if effective_accel_name(cfg, platform) == "tcg"@ || platform == Platform::Windows {
        "qemu64"@
    } else {
        "host"@
    }
}

/// The CPU model to launch this VM with.
pub fn cpu_model(cfg: &VmConfig, platform: Platform) -> (r: String)
    ensures
        r@ == cpu_model_name(*cfg, platform),
{
    let a = effective_accel(cfg, platform);
    let windows = match platform {
        Platform::Windows => true,
        _ => false,
    };
    if str_eq(a.as_str(), "tcg") || windows {
        "qemu64".to_owned()
    } else {
        "host".to_owned()
    }
}

/// A program to run: `file` inside the directory `dir`, or the bare name `file`
/// (found through PATH) when no directory is known.
pub struct ToolPath<R> {
    pub dir: Option<R>,
    pub file: String,
}

/// The file name of the QEMU system emulator on the platform.
pub open spec fn system_bin_name(platform: Platform) -> Seq<char> {
    if platform == Platform::Windows {
        "qemu-system-x86_64.exe"@
    } else {
        "qemu-system-x86_64"@
    }
}

/// The file name of `qemu-img` on the platform.
pub open spec fn img_bin_name(platform: Platform) -> Seq<char> {
    if platform == Platform::Windows {
        "qemu-img.exe"@
    } else {
        "qemu-img"@
    }
}

/// The QEMU system emulator in the QEMU install directory `dir`, or its bare
/// name when no install directory is known.
pub fn system_binary<R>(dir: Option<R>, platform: Platform) -> (r: ToolPath<R>)
    ensures
        r.dir == dir,
        r.file@ == system_bin_name(platform),
{
    let file = match platform {
        Platform::Windows => "qemu-system-x86_64.exe".to_owned(),
        _ => "qemu-system-x86_64".to_owned(),
    };
    ToolPath { dir, file }
}

/// `qemu-img` in the QEMU install directory `dir`, or its bare name when no
/// install directory is known.
pub fn img_binary<R>(dir: Option<R>, platform: Platform) -> (r: ToolPath<R>)
    ensures
        r.dir == dir,
        r.file@ == img_bin_name(platform),
{
    let file = match platform {
        Platform::Windows => "qemu-img.exe".to_owned(),
        _ => "qemu-img".to_owned(),
    };
    ToolPath { dir, file }
}

/// The working directory QEMU is launched in: the QEMU install directory, where
/// it finds its data files (such as the VNC keymaps).
pub fn install_dir<R>(dir: Option<R>) -> (r: Option<R>)
    ensures
        r == dir,
{
    dir
}

/// The SPICE client `remote-viewer` on hosts where it is found through PATH.
pub fn viewer_binary() -> (r: Option<String>)
    ensures
        r matches Some(s) && s@ == "remote-viewer"@,
{
    Some("remote-viewer".to_owned())
}

/// Whether a directory named `name` is a virt-viewer install: its installer
/// creates version-stamped directories such as `VirtViewer v11.0-256`.
pub fn is_virt_viewer_dir(name: &str) -> (r: bool)
    ensures
        r == "VirtViewer"@.is_prefix_of(name@),
{
    let prefix = "VirtViewer";
    let n = prefix.unicode_len();
    if name.unicode_len() < n {
        return false;
    }
    let head = name.substring_char(0, n);
    let same = str_eq(head, prefix);
    proof {
        if same {
            assert(prefix@ =~= name@.take(n as int));
        } else {
            assert(head@ =~= name@.take(n as int));
        }
    }
    same
}

/// What the standard library's `DefaultHasher::new()` gives for a string once it
/// has hashed it (`Hash for str`) and finished. It depends on the text alone and
/// is fixed for a given build of the standard library.
pub uninterp spec fn name_hash(name: Seq<char>) -> u64;

/// Hashes `name` with `std::collections::hash_map::DefaultHasher` (created with
/// `new`, fed through `Hash for str`, read with `finish`). The contract says only
/// that the result is that hash of the text, whatever its value.
#[verifier::external_body]
fn hash_name(name: &str) -> (h: u64)
    ensures
        h == name_hash(name@),
{
    let mut hasher = std::collections::hash_map::DefaultHasher::new();
    std::hash::Hash::hash(name, &mut hasher);
    std::hash::Hasher::finish(&hasher)
}

/// The MAC address made from a 64-bit hash: QEMU's `52:54:00` OUI, then bits
/// 16..24, 8..16 and 0..8 of the hash as two lower-case hex digits each.
pub open spec fn mac_text(n: u64) -> Seq<char> {
    "52:54:00:"@ + hex2((n >> 16u64) as u8) + ":"@ + hex2((n >> 8u64) as u8) + ":"@ + hex2(
        n as u8,
    )
}

/// The MAC address for a VM named `name`.
pub open spec fn mac_for_name(name: Seq<char>) -> Seq<char> {
    mac_text(name_hash(name))
}

/// The MAC address made from the hash `n` of a VM's name.
pub fn mac_from_hash(n: u64) -> (r: String)
    ensures
        r@ == mac_text(n),
{
    let mut s = "52:54:00:".to_owned();
    push_hex2(&mut s, (n >> 16u64) as u8);
    s.push(':');
    push_hex2(&mut s, (n >> 8u64) as u8);
    s.push(':');
    push_hex2(&mut s, n as u8);
    proof {
        reveal_strlit(":");
        assert(s@ =~= mac_text(n));
    }
    s
}

/// A deterministic MAC address for a VM, derived from its name: the same name
/// always gives the same address.
pub fn derive_mac(name: &str) -> (r: String)
    ensures
        r@ == mac_for_name(name@),
{
    let h = hash_name(name);
    mac_from_hash(h)
}

/// Ports assigned to a launched VM.
#[derive(Clone, Copy, Debug, PartialEq, Eq)]
pub struct LaunchPorts {
    pub vnc_display: u16,
    pub websocket_port: u16,
    pub qmp_port: u16,
    /// SPICE server port for the external virt-viewer client.
    pub spice_port: u16,
}

/// The leading arguments: accelerator, CPU, memory, CPU count, the primary disk
/// (written through so a hard kill loses nothing) and the guest's name.
pub open spec fn base_args(cfg: VmConfig, platform: Platform) -> Seq<Seq<char>> {
    seq![
        "-accel"@,
        effective_accel_name(cfg, platform),
        "-cpu"@,
        cpu_model_name(cfg, platform),
        "-m"@,
        decimal(cfg.memory_mb as nat),
        "-smp"@,
        decimal(cfg.cpus as nat),
        "-drive"@,
        "file="@ + cfg.disk_path@ + ",format=qcow2,cache=writethrough"@,
        "-name"@,
        cfg.name@,
    ]
}

/// The `-drive` option that exposes the host folder `dir` as a virtual FAT disk
/// in IDE slot 1, writable when `rw`.
pub open spec fn shared_drive_option(dir: Seq<char>, rw: bool) -> Seq<char> {
    "file=fat:"@ + (if rw {
        "rw:"@
    } else {
        Seq::<char>::empty()
    }) + dir + ",format=raw,index=1"@
}

/// The shared-folder drive, when a non-empty folder is configured.
pub open spec fn shared_args(cfg: VmConfig) -> Seq<Seq<char>> {
    match cfg.shared_folder {
        Some(dir) => if dir@.len() > 0 {
            seq!["-drive"@, shared_drive_option(dir@, cfg.shared_folder_writable)]
        } else {
            Seq::empty()
        },
        None => Seq::empty(),
    }
}

/// The install CD, when a non-empty ISO path is configured, with disk-first boot
/// order and SeaBIOS's boot menu.
pub open spec fn iso_args(cfg: VmConfig) -> Seq<Seq<char>> {
    match cfg.iso_path {
        Some(iso) => if iso@.len() > 0 {
            seq!["-cdrom"@, iso@, "-boot"@, "order=cd,menu=on,splash-time=4000"@]
        } else {
            Seq::empty()
        },
        None => Seq::empty(),
    }
}

/// The absolute pointing device (a USB tablet).
pub open spec fn tablet_args() -> Seq<Seq<char>> {
    seq!["-usb"@, "-device"@, "usb-tablet"@]
}

/// The `hostfwd` rule of one port forward: UDP when the protocol is "udp", TCP otherwise.
pub open spec fn hostfwd_rule(pf: PortForward) -> Seq<char> {
    ",hostfwd="@ + (if pf.protocol@ == "udp"@ {
        "udp"@
    } else {
        "tcp"@
    }) + "::"@ + decimal(pf.host_port as nat) + "-:"@ + decimal(pf.guest_port as nat)
}

/// The `hostfwd` rules of the port forwards, in order.
pub open spec fn hostfwd_rules(pfs: Seq<PortForward>) -> Seq<char>
    decreases pfs.len(),
{
    if pfs.len() == 0 {
        Seq::empty()
    } else {
        hostfwd_rules(pfs.drop_last()) + hostfwd_rule(pfs.last())
    }
}

/// The user-mode network backend: restricted when isolated, with the port forwards.
pub open spec fn netdev_option(cfg: VmConfig) -> Seq<char> {
    "user,id=net0"@ + (if cfg.net_mode@ == "isolated"@ {
        ",restrict=on"@
    } else {
        Seq::<char>::empty()
    }) + hostfwd_rules(cfg.port_forwards@)
}

/// QEMU's device name for a NIC model; unknown models get the e1000.
pub open spec fn nic_device_name(nic: Seq<char>) -> Seq<char> {
    if nic == "ne2k"@ {
        "ne2k_isa"@
    } else if nic == "rtl8139"@ {
        "rtl8139"@
    } else if nic == "virtio"@ {
        "virtio-net-pci"@
    } else {
        "e1000"@
    }
}

/// The MAC a VM's NIC gets: the stored one, or the one derived from its name.
pub open spec fn vm_mac(cfg: VmConfig) -> Seq<char> {
    match cfg.mac_address {
        Some(m) => m@,
        None => mac_for_name(cfg.name@),
    }
}

/// The networking arguments: no NIC at all for "none", otherwise the user-mode
/// backend and a NIC of the configured model with the VM's MAC.
pub open spec fn net_args(cfg: VmConfig) -> Seq<Seq<char>> {
    if cfg.net_mode@ == "none"@ {
        seq!["-nic"@, "none"@]
    } else {
        seq![
            "-netdev"@,
            netdev_option(cfg),
            "-device"@,
            nic_device_name(cfg.nic_model@) + ",netdev=net0,mac="@ + vm_mac(cfg),
        ]
    }
}

/// QEMU's VGA model for a display adapter; unknown adapters get "std".
pub open spec fn vga_name(adapter: Seq<char>) -> Seq<char> {
    if adapter == "virtio"@ {
        "virtio"@
    } else if adapter == "qxl"@ {
        "qxl"@
    } else {
        "std"@
    }
}

/// The VGA adapter.
pub open spec fn vga_args(cfg: VmConfig) -> Seq<Seq<char>> {
    seq!["-vga"@, vga_name(cfg.display_adapter@)]
}

/// No native window; VNC on loopback with a websocket listener for noVNC.
pub open spec fn display_args(ports: LaunchPorts) -> Seq<Seq<char>> {
    seq![
        "-display"@,
        "none"@,
        "-vnc"@,
        "127.0.0.1:"@ + decimal(ports.vnc_display as nat) + ",websocket="@ + decimal(
            ports.websocket_port as nat,
        ),
    ]
}

/// The SPICE server on loopback and the vdagent channel.
pub open spec fn spice_args(ports: LaunchPorts) -> Seq<Seq<char>> {
    seq![
        "-spice"@,
        "port="@ + decimal(ports.spice_port as nat) + ",addr=127.0.0.1,disable-ticketing=on"@,
        "-device"@,
        "virtio-serial-pci"@,
        "-chardev"@,
        "spicevmc,id=spicechannel0,name=vdagent"@,
        "-device"@,
        "virtserialport,chardev=spicechannel0,name=com.redhat.spice.0"@,
    ]
}

/// The QMP control channel on loopback.
pub open spec fn qmp_args(ports: LaunchPorts) -> Seq<Seq<char>> {
    seq!["-qmp"@, "tcp:127.0.0.1:"@ + decimal(ports.qmp_port as nat) + ",server,nowait"@]
}

/// The full QEMU argument vector for a VM.
pub open spec fn qemu_args(cfg: VmConfig, ports: LaunchPorts, platform: Platform) -> Seq<
    Seq<char>,
> {
    base_args(cfg, platform) + shared_args(cfg) + iso_args(cfg) + tablet_args() + net_args(cfg)
        + vga_args(cfg) + display_args(ports) + spice_args(ports) + qmp_args(ports)
}

fn text_of(lit: &str) -> (r: String)
    ensures
        r@ == lit@,
{
    lit.to_owned()
}

fn push_base_args(args: &mut Vec<String>, cfg: &VmConfig, platform: Platform)
    ensures
        texts(final(args)@) == texts(old(args)@) + base_args(*cfg, platform),
{
    let ghost start = texts(args@);
    push_text(args, text_of("-accel"));
    push_text(args, effective_accel(cfg, platform));
    push_text(args, text_of("-cpu"));
    push_text(args, cpu_model(cfg, platform));
    push_text(args, text_of("-m"));
    push_text(args, decimal_string(cfg.memory_mb as u64));
    push_text(args, text_of("-smp"));
    push_text(args, decimal_string(cfg.cpus as u64));
    push_text(args, text_of("-drive"));
    let mut drive = text_of("file=");
    drive.append(cfg.disk_path.as_str());
    drive.append(",format=qcow2,cache=writethrough");
    push_text(args, drive);
    push_text(args, text_of("-name"));
    push_text(args, cfg.name.clone());
    assert(texts(args@) =~= start + base_args(*cfg, platform));
}

fn push_shared_args(args: &mut Vec<String>, cfg: &VmConfig)
    ensures
        texts(final(args)@) == texts(old(args)@) + shared_args(*cfg),
{
    let ghost start = texts(args@);
    match &cfg.shared_folder {
        Some(dir) => {
            if !dir.as_str().is_empty() {
                push_text(args, text_of("-drive"));
                let mut opt = text_of("file=fat:");
                if cfg.shared_folder_writable {
                    opt.append("rw:");
                }
                opt.append(dir.as_str());
                opt.append(",format=raw,index=1");
                assert(opt@ =~= shared_drive_option(dir@, cfg.shared_folder_writable));
                push_text(args, opt);
            }
        },
        None => {},
    }
    assert(texts(args@) =~= start + shared_args(*cfg));
}

fn push_iso_args(args: &mut Vec<String>, cfg: &VmConfig)
    ensures
        texts(final(args)@) == texts(old(args)@) + iso_args(*cfg),
{
    let ghost start = texts(args@);
    match &cfg.iso_path {
        Some(iso) => {
            if !iso.as_str().is_empty() {
                push_text(args, text_of("-cdrom"));
                push_text(args, iso.clone());
                push_text(args, text_of("-boot"));
                push_text(args, text_of("order=cd,menu=on,splash-time=4000"));
            }
        },
        None => {},
    }
    assert(texts(args@) =~= start + iso_args(*cfg));
}

fn append_hostfwd(s: &mut String, pf: &PortForward)
    ensures
        final(s)@ == old(s)@ + hostfwd_rule(*pf),
{
    let ghost start = s@;
    s.append(",hostfwd=");
    if str_eq(pf.protocol.as_str(), "udp") {
        s.append("udp");
    } else {
        s.append("tcp");
    }
    s.append("::");
    push_decimal(s, pf.host_port as u64);
    s.append("-:");
    push_decimal(s, pf.guest_port as u64);
    assert(s@ =~= start + hostfwd_rule(*pf));
}

/// Builds the user-mode network backend option.
fn netdev_string(cfg: &VmConfig) -> (r: String)
    ensures
        r@ == netdev_option(*cfg),
{
    let mut netdev = text_of("user,id=net0");
    if str_eq(cfg.net_mode.as_str(), "isolated") {
        netdev.append(",restrict=on");
    }
    let ghost head = netdev@;
    let n = cfg.port_forwards.len();
    let mut i: usize = 0;
    assert(cfg.port_forwards@.take(0) =~= Seq::<PortForward>::empty());
    assert(netdev@ =~= head + hostfwd_rules(cfg.port_forwards@.take(0)));
    while i < n
        invariant
            n == cfg.port_forwards@.len(),
            i <= n,
            netdev@ == head + hostfwd_rules(cfg.port_forwards@.take(i as int)),
        decreases n - i,
    {
        append_hostfwd(&mut netdev, &cfg.port_forwards[i]);
        proof {
            let pfs = cfg.port_forwards@;
            assert(pfs.take(i + 1).drop_last() =~= pfs.take(i as int));
            assert(pfs.take(i + 1).last() == pfs[i as int]);
            assert(hostfwd_rules(pfs.take(i + 1)) == hostfwd_rules(pfs.take(i as int))
                + hostfwd_rule(pfs[i as int]));
            assert(netdev@ =~= head + hostfwd_rules(pfs.take(i + 1)));
        }
        i = i + 1;
    }
    assert(cfg.port_forwards@.take(n as int) =~= cfg.port_forwards@);
    netdev
}

fn nic_device(nic: &str) -> (r: String)
    ensures
        r@ == nic_device_name(nic@),
{
    if str_eq(nic, "ne2k") {
        text_of("ne2k_isa")
    } else if str_eq(nic, "rtl8139") {
        text_of("rtl8139")
    } else if str_eq(nic, "virtio") {
        text_of("virtio-net-pci")
    } else {
        text_of("e1000")
    }
}

fn push_net_args(args: &mut Vec<String>, cfg: &VmConfig)
    ensures
        texts(final(args)@) == texts(old(args)@) + net_args(*cfg),
{
    let ghost start = texts(args@);
    if str_eq(cfg.net_mode.as_str(), "none") {
        push_text(args, text_of("-nic"));
        push_text(args, text_of("none"));
    } else {
        push_text(args, text_of("-netdev"));
        push_text(args, netdev_string(cfg));
        let mac = match &cfg.mac_address {
            Some(m) => m.clone(),
            None => derive_mac(cfg.name.as_str()),
        };
        let mut dev = nic_device(cfg.nic_model.as_str());
        dev.append(",netdev=net0,mac=");
        dev.append(mac.as_str());
        push_text(args, text_of("-device"));
        push_text(args, dev);
    }
    assert(texts(args@) =~= start + net_args(*cfg));
}

fn push_vga_args(args: &mut Vec<String>, cfg: &VmConfig)
    ensures
        texts(final(args)@) == texts(old(args)@) + vga_args(*cfg),
{
    let ghost start = texts(args@);
    let vga = if str_eq(cfg.display_adapter.as_str(), "virtio") {
        text_of("virtio")
    } else if str_eq(cfg.display_adapter.as_str(), "qxl") {
        text_of("qxl")
    } else {
        text_of("std")
    };
    push_text(args, text_of("-vga"));
    push_text(args, vga);
    assert(texts(args@) =~= start + vga_args(*cfg));
}

fn push_port_args(args: &mut Vec<String>, ports: &LaunchPorts)
    ensures
        texts(final(args)@) == texts(old(args)@) + display_args(*ports) + spice_args(*ports)
            + qmp_args(*ports),
{
    let ghost start = texts(args@);
    push_text(args, text_of("-display"));
    push_text(args, text_of("none"));
    push_text(args, text_of("-vnc"));
    let mut vnc = text_of("127.0.0.1:");
    push_decimal(&mut vnc, ports.vnc_display as u64);
    vnc.append(",websocket=");
    push_decimal(&mut vnc, ports.websocket_port as u64);
    push_text(args, vnc);
    push_text(args, text_of("-spice"));
    let mut spice = text_of("port=");
    push_decimal(&mut spice, ports.spice_port as u64);
    spice.append(",addr=127.0.0.1,disable-ticketing=on");
    push_text(args, spice);
    push_text(args, text_of("-device"));
    push_text(args, text_of("virtio-serial-pci"));
    push_text(args, text_of("-chardev"));
    push_text(args, text_of("spicevmc,id=spicechannel0,name=vdagent"));
    push_text(args, text_of("-device"));
    push_text(args, text_of("virtserialport,chardev=spicechannel0,name=com.redhat.spice.0"));
    push_text(args, text_of("-qmp"));
    let mut qmp = text_of("tcp:127.0.0.1:");
    push_decimal(&mut qmp, ports.qmp_port as u64);
    qmp.append(",server,nowait");
    push_text(args, qmp);
    assert(texts(args@) =~= start + display_args(*ports) + spice_args(*ports) + qmp_args(*ports));
}

/// The full QEMU argument vector for a VM: no QEMU window, VNC with a websocket
/// listener for the embedded viewer, SPICE for the external viewer, and QMP for
/// lifecycle control, all on loopback.
pub fn build_args(cfg: &VmConfig, ports: &LaunchPorts, platform: Platform) -> (r: Vec<String>)
    ensures
        texts(r@) == qemu_args(*cfg, *ports, platform),
{
    let mut args: Vec<String> = Vec::new();
    assert(texts(args@) =~= Seq::<Seq<char>>::empty());
    push_base_args(&mut args, cfg, platform);
    push_shared_args(&mut args, cfg);
    push_iso_args(&mut args, cfg);
    let ghost before_tablet = texts(args@);
    push_text(&mut args, text_of("-usb"));
    push_text(&mut args, text_of("-device"));
    push_text(&mut args, text_of("usb-tablet"));
    assert(texts(args@) =~= before_tablet + tablet_args());
    push_net_args(&mut args, cfg);
    push_vga_args(&mut args, cfg);
    push_port_args(&mut args, ports);
    assert(texts(args@) =~= qemu_args(*cfg, *ports, platform));
    args
}

/// The version line QEMU prints for `--version`: the first line of its output,
/// trimmed, or "unknown" when it printed nothing.
pub open spec fn version_text(stdout: Seq<char>) -> Seq<char> {
    match first_line(stdout) {
        Some(l) => trimmed(l),
        None => trimmed("unknown"@),
    }
}

/// The version string reported by `qemu-system-* --version`.
pub fn version_line(stdout: &str) -> (r: String)
    ensures
        r@ == version_text(stdout@),
{
    match first_line_of(stdout) {
        Some(l) => trim(l).to_owned(),
        None => trim("unknown").to_owned(),
    }
}

/// The `qemu-img` arguments that create a qcow2 disk of `size_gb` GiB at `path`.
pub open spec fn create_disk_argv(path: Seq<char>, size_gb: u32) -> Seq<Seq<char>> {
    seq!["create"@, "-f"@, "qcow2"@, path, decimal(size_gb as nat) + "G"@]
}

/// The `qemu-img` arguments that create a qcow2 disk image of the given size (in GiB).
pub fn create_disk_args(path: &str, size_gb: u32) -> (r: Vec<String>)
    ensures
        texts(r@) == create_disk_argv(path@, size_gb),
{
    let mut args: Vec<String> = Vec::new();
    assert(texts(args@) =~= Seq::<Seq<char>>::empty());
    push_text(&mut args, text_of("create"));
    push_text(&mut args, text_of("-f"));
    push_text(&mut args, text_of("qcow2"));
    push_text(&mut args, path.to_owned());
    let mut size = decimal_string(size_gb as u64);
    size.append("G");
    push_text(&mut args, size);
    assert(texts(args@) =~= create_disk_argv(path@, size_gb));
    args
}

/// The error reported when `qemu-img create` fails, with its error output as is.
pub fn create_disk_failure(stderr: &str) -> (r: String)
    ensures
        r@ == "qemu-img create failed: "@ + stderr@,
{
    let mut m = text_of("qemu-img create failed: ");
    m.append(stderr);
    m
}

/// The error reported when a `qemu-img` run fails: its sub-command (the first
/// argument) and its trimmed error output.
pub open spec fn img_failure_text(args: Seq<Seq<char>>, stderr: Seq<char>) -> Seq<char> {
    "qemu-img "@ + (if args.len() > 0 {
        args[0]
    } else {
        Seq::<char>::empty()
    }) + " failed: "@ + trimmed(stderr)
}

/// The error for a failed `qemu-img` run with arguments `args`.
pub fn img_failure_message(args: &Vec<String>, stderr: &str) -> (r: String)
    ensures
        r@ == img_failure_text(texts(args@), stderr@),
{
    let mut m = text_of("qemu-img ");
    if args.len() > 0 {
        m.append(args[0].as_str());
    }
    m.append(" failed: ");
    m.append(trim(stderr));
    assert(m@ =~= img_failure_text(texts(args@), stderr@));
    m
}

/// The `qemu-img` arguments of a snapshot operation `flag` on `tag` in `disk`.
pub open spec fn snapshot_argv(flag: Seq<char>, tag: Seq<char>, disk: Seq<char>) -> Seq<Seq<char>> {
    seq!["snapshot"@, flag, tag, disk]
}

fn snapshot_args(flag: &str, tag: &str, disk_path: &str) -> (r: Vec<String>)
    ensures
        texts(r@) == snapshot_argv(flag@, tag@, disk_path@),
{
    let mut args: Vec<String> = Vec::new();
    assert(texts(args@) =~= Seq::<Seq<char>>::empty());
    push_text(&mut args, text_of("snapshot"));
    push_text(&mut args, flag.to_owned());
    push_text(&mut args, tag.to_owned());
    push_text(&mut args, disk_path.to_owned());
    assert(texts(args@) =~= snapshot_argv(flag@, tag@, disk_path@));
    args
}

/// The `qemu-img` arguments that create a disk-only snapshot `tag` in a
/// stopped VM's disk.
pub fn snapshot_create_offline(disk_path: &str, tag: &str) -> (r: Vec<String>)
    ensures
        texts(r@) == snapshot_argv("-c"@, tag@, disk_path@),
{
    snapshot_args("-c", tag, disk_path)
}

/// The `qemu-img` arguments that apply (restore) snapshot `tag` in a stopped
/// VM's disk.
pub fn snapshot_apply_offline(disk_path: &str, tag: &str) -> (r: Vec<String>)
    ensures
        texts(r@) == snapshot_argv("-a"@, tag@, disk_path@),
{
    snapshot_args("-a", tag, disk_path)
}

/// The `qemu-img` arguments that delete snapshot `tag` from a stopped VM's disk.
pub fn snapshot_delete_offline(disk_path: &str, tag: &str) -> (r: Vec<String>)
    ensures
        texts(r@) == snapshot_argv("-d"@, tag@, disk_path@),
{
    snapshot_args("-d", tag, disk_path)
}

/// The `qemu-img` arguments that report a disk's details, snapshots included, as JSON.
pub fn snapshot_info_args(disk_path: &str) -> (r: Vec<String>)
    ensures
        texts(r@) == seq!["info"@, "--output=json"@, disk_path@],
{
    let mut args: Vec<String> = Vec::new();
    assert(texts(args@) =~= Seq::<Seq<char>>::empty());
    push_text(&mut args, text_of("info"));
    push_text(&mut args, text_of("--output=json"));
    push_text(&mut args, disk_path.to_owned());
    assert(texts(args@) =~= seq!["info"@, "--output=json"@, disk_path@]);
    args
}

/// A qcow2 internal snapshot, as reported by `qemu-img`.
#[derive(Clone, Debug, PartialEq, Eq)]
pub struct Snapshot {
    /// The snapshot tag (qcow2 calls it the snapshot "name").
    pub tag: String,
    /// Saved machine-state size in bytes; 0 for a disk-only snapshot.
    pub vm_state_size: u64,
    /// When the snapshot was taken, as a Unix timestamp (seconds).
    pub date_sec: i64,
}

/// The snapshot entries of a `qemu-img info` report: its `snapshots` array, or
/// none when the key is absent or not an array.
pub open spec fn snapshot_entries(info: JsonValue) -> Seq<JsonValue> {
    match json_array(json_get(info, "snapshots"@)) {
        Some(a) => a,
        None => Seq::empty(),
    }
}

/// A snapshot entry's tag: its `name` string, or empty.
pub open spec fn entry_tag(e: JsonValue) -> Seq<char> {
    match json_str(json_get(e, "name"@)) {
        Some(s) => s,
        None => Seq::empty(),
    }
}

/// A snapshot entry's machine-state size: its `vm-state-size`, or 0.
pub open spec fn entry_state_size(e: JsonValue) -> u64 {
    match json_u64(json_get(e, "vm-state-size"@)) {
        Some(n) => n,
        None => 0,
    }
}

/// A snapshot entry's date: its `date-sec`, or 0.
pub open spec fn entry_date(e: JsonValue) -> i64 {
    match json_i64(json_get(e, "date-sec"@)) {
        Some(n) => n,
        None => 0,
    }
}

/// The snapshot `e` describes.
pub open spec fn snapshot_matches(s: Snapshot, e: JsonValue) -> bool {
    &&& s.tag@ == entry_tag(e)
    &&& s.vm_state_size == entry_state_size(e)
    &&& s.date_sec == entry_date(e)
}

fn snapshot_of(e: &JsonValue) -> (r: Snapshot)
    ensures
        snapshot_matches(r, *e),
{
    let tag = match as_str(e.get("name")) {
        Some(s) => s.to_owned(),
        None => String::new(),
    };
    let vm_state_size = match as_u64(e.get("vm-state-size")) {
        Some(n) => n,
        None => 0,
    };
    let date_sec = match as_i64(e.get("date-sec")) {
        Some(n) => n,
        None => 0,
    };
    Snapshot { tag, vm_state_size, date_sec }
}

/// The internal snapshots listed by a `qemu-img info --output=json` report, in
/// its order; none when it has no `snapshots` array.
pub fn snapshots_from_info(info: &JsonValue) -> (r: Vec<Snapshot>)
    ensures
        r@.len() == snapshot_entries(*info).len(),
        forall|i: int| 0 <= i < r@.len() ==> snapshot_matches(#[trigger] r@[i], snapshot_entries(*info)[i]),
{
    let mut list: Vec<Snapshot> = Vec::new();
    match as_array(info.get("snapshots")) {
        Some(arr) => {
            let n = arr.len();
            let mut i: usize = 0;
            while i < n
                invariant
                    n == arr@.len(),
                    arr@ == snapshot_entries(*info),
                    i <= n,
                    list@.len() == i,
                    forall|j: int| 0 <= j < i ==> snapshot_matches(#[trigger] list@[j], arr@[j]),
                decreases n - i,
            {
                list.push(snapshot_of(&arr[i]));
                i = i + 1;
            }
        },
        None => {},
    }
    list
}

} // verus!
