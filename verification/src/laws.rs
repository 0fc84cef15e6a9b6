//! Properties that hold across the library's functions, proved over the
//! specifications their contracts use.
use vstd::prelude::*;
use crate::json::{json_get, JsonNumber, JsonValue};
use crate::qemu::{
    base_args, hostfwd_rules, iso_args, net_args, netdev_option, shared_args, snapshot_matches,
    tablet_args,
};
use crate::text::is_ws;
use crate::vm::{lowercased, PortForward};
use crate::control::{
    cleaned_folder, is_new_config, is_update_of, name_forbidden_chars, new_vm_check, plan_matches,
    tag_error, SnapshotPlan, VmSettings,
};
use crate::qemu::{
    cpu_model_name, live_snapshots_ok, mac_for_name, mac_text, qemu_args, shared_drive_option,
    vm_mac, LaunchPorts, Platform,
};
use crate::text::{
    count_char, decimal, has_any, has_ws, lemma_count_absent, lemma_count_concat, lemma_text_lt_total,
    text_lt,
};
use crate::runtime::{keep_flags, kept, persisted_matches, reattached, reconciled, Registry, RunningVm};
use crate::session::PersistedVm;
use crate::vm::{listed_before, name_key, sorted_by_name, VmConfig};

verus! {

/// A VM set to software emulation (TCG) supports live snapshots on every host.
pub proof fn law_tcg_snapshots_live_anywhere(cfg: VmConfig, platform: Platform)
    requires
        cfg.acceleration@ == "tcg"@,
    ensures
        live_snapshots_ok(cfg, platform),
        cpu_model_name(cfg, platform) == "qemu64"@,
{
}

/// Under WHPX (Windows) and HVF (macOS) a hardware-accelerated VM cannot be
/// snapshotted while it runs; under KVM it can.
pub proof fn law_hypervisor_live_snapshots(cfg: VmConfig, platform: Platform)
    requires
        cfg.acceleration@ != "tcg"@,
    ensures
        live_snapshots_ok(cfg, platform) == (platform == Platform::Other),
{
    reveal_strlit("whpx");
    reveal_strlit("hvf");
    reveal_strlit("kvm");
    reveal_strlit("tcg");
    assert("whpx"@.len() == 4 && "kvm"@.len() == 3 && "tcg"@.len() == 3);
    assert("hvf"@[0] == 'h' && "kvm"@[0] == 'k' && "tcg"@[0] == 't');
    assert("whpx"@ != "kvm"@ && "whpx"@ != "tcg"@);
    assert("hvf"@ != "kvm"@ && "hvf"@ != "tcg"@);
}

/// Every derived MAC uses QEMU's `52:54:00` OUI and has the form
/// `xx:xx:xx:xx:xx:xx` with lower-case hex digits.
pub proof fn law_mac_shape(n: u64)
    ensures
        mac_text(n).len() == 17,
        mac_text(n).take(9) == "52:54:00:"@,
        mac_text(n)[11] == ':',
        mac_text(n)[14] == ':',
{
    reveal_strlit("52:54:00:");
    reveal_strlit(":");
    assert(mac_text(n).take(9) =~= "52:54:00:"@);
}

/// A new VM's NIC gets the MAC derived from its name, the same one a
/// configuration without a stored MAC falls back to.
pub proof fn law_new_vm_mac(
    r: VmConfig,
    name: String,
    disk_path: String,
    disk_size_gb: u32,
    settings: VmSettings,
)
    requires
        is_new_config(r, name, disk_path, disk_size_gb, settings),
    ensures
        vm_mac(r) == mac_for_name(name@),
{
}

/// Editing a VM's settings never changes the MAC its NIC is given: a stored MAC
/// is kept, and a missing one is filled in with the very MAC it fell back to.
pub proof fn law_edit_keeps_mac(r: VmConfig, cfg: VmConfig, settings: VmSettings)
    requires
        is_update_of(r, cfg, settings),
    ensures
        vm_mac(r) == vm_mac(cfg),
{
}

/// The primary disk is always attached written-through (so a hard kill loses
/// no writes), and the guest is tagged with its VM name (`-name <name>`), which
/// is how a relaunch recognises it over QMP.
pub proof fn law_disk_and_guest_name(cfg: VmConfig, ports: LaunchPorts, platform: Platform)
    ensures
        qemu_args(cfg, ports, platform)[8] == "-drive"@,
        qemu_args(cfg, ports, platform)[9] == "file="@ + cfg.disk_path@
            + ",format=qcow2,cache=writethrough"@,
        qemu_args(cfg, ports, platform)[10] == "-name"@,
        qemu_args(cfg, ports, platform)[11] == cfg.name@,
{
}

/// WHPX cannot run `-cpu max` or `-cpu host`: on Windows every VM gets the
/// conservative `qemu64` model.
pub proof fn law_windows_cpu_model(cfg: VmConfig)
    ensures
        cpu_model_name(cfg, Platform::Windows) == "qemu64"@,
{
}

/// The command line always ends with the QMP control channel on loopback at the
/// VM's QMP port.
pub proof fn law_qmp_channel_last(cfg: VmConfig, ports: LaunchPorts, platform: Platform)
    ensures
        ({
            let a = qemu_args(cfg, ports, platform);
            &&& a.len() >= 2
            &&& a[a.len() - 2] == "-qmp"@
            &&& a[a.len() - 1] == "tcp:127.0.0.1:"@ + decimal(ports.qmp_port as nat)
                + ",server,nowait"@
        }),
{
}

/// A name accepted for a new VM is its trimmed, non-empty form and holds none of
/// the forbidden characters, a comma among them, so it is one field of QEMU's
/// `-name` option and one path component.
pub proof fn law_accepted_name(name: Seq<char>, folder: Option<Seq<char>>)
    requires
        new_vm_check(name, folder) is Ok,
    ensures
        ({
            let n = new_vm_check(name, folder)->Ok_0.0;
            &&& n.len() > 0
            &&& !has_any(n, name_forbidden_chars())
            &&& !n.contains(',')
            &&& !n.contains('/')
            &&& !n.contains('\\')
        }),
{
    let n = new_vm_check(name, folder)->Ok_0.0;
    if n.contains(',') {
        let i = choose|i: int| 0 <= i < n.len() && n[i] == ',';
        assert(name_forbidden_chars()[9] == ',');
        assert(name_forbidden_chars().contains(n[i]));
    }
    if n.contains('/') {
        let i = choose|i: int| 0 <= i < n.len() && n[i] == '/';
        assert(name_forbidden_chars()[0] == '/');
        assert(name_forbidden_chars().contains(n[i]));
    }
    if n.contains('\\') {
        let i = choose|i: int| 0 <= i < n.len() && n[i] == '\\';
        assert(name_forbidden_chars()[1] == '\\');
        assert(name_forbidden_chars().contains(n[i]));
    }
}

/// An accepted snapshot name is one word: a live snapshot's monitor command
/// line is the verb, one space and the name, and the name holds no whitespace.
pub proof fn law_accepted_tag_one_word(
    plan: SnapshotPlan,
    port: u16,
    verb: Seq<char>,
    tag: Seq<char>,
)
    requires
        tag_error(tag) is None,
        plan_matches(plan, Some(port), true, true, verb, tag),
    ensures
        tag.len() > 0,
        !has_ws(tag),
        plan matches SnapshotPlan::Live { command_line: c, .. } && c@ == verb + " "@ + tag,
{
}

/// Stopped VMs are always snapshotted on disk, and a running VM's snapshot is
/// refused exactly when its accelerator cannot save live state.
pub proof fn law_snapshot_routing(plan: SnapshotPlan, running: Option<u16>, live_ok: bool, verb: Seq<char>, tag: Seq<char>)
    requires
        plan_matches(plan, running, live_ok, true, verb, tag),
    ensures
        running is None ==> plan is Offline,
        plan is Refused <==> (running is Some && !live_ok),
{
}

/// The VM list is ordered by lower-cased name: no VM is listed after one whose
/// key comes later.
pub proof fn law_list_sorted(vms: Seq<VmConfig>, r: Seq<VmConfig>)
    requires
        r.len() == vms.len(),
        sorted_by_name(vms, r),
    ensures
        forall|a: int, b: int|
            0 <= a < b < r.len() ==> !text_lt(name_key(r[b]), name_key(r[a])),
{
    let p = choose|p: Seq<int>|
        {
            &&& crate::vm::is_permutation(p, vms.len() as int)
            &&& forall|k: int| 0 <= k < r.len() ==> #[trigger] r[k] == vms[p[k]]
            &&& forall|a: int, b: int|
                0 <= a < b < r.len() ==> listed_before(vms, #[trigger] p[a], #[trigger] p[b])
        };
    assert forall|a: int, b: int| 0 <= a < b < r.len() implies !text_lt(
        name_key(r[b]),
        name_key(r[a]),
    ) by {
        assert(listed_before(vms, p[a], p[b]));
        assert(r[a] == vms[p[a]]);
        assert(r[b] == vms[p[b]]);
        lemma_text_lt_total(name_key(r[a]), name_key(r[b]));
    }
}

/// A cleaned shared folder holds no comma, so its `-drive` option always has
/// exactly three comma-separated fields (`file=fat:...`, `format=raw`, `index=1`)
/// and the folder cannot inject drive options.
pub proof fn law_shared_drive_fields(path: Option<Seq<char>>, rw: bool)
    requires
        cleaned_folder(path) matches Ok(Some(_)),
    ensures
        ({
            let dir = cleaned_folder(path)->Ok_0->Some_0;
            &&& !dir.contains(',')
            &&& count_char(shared_drive_option(dir, rw), ',') == 2
        }),
{
    let dir = cleaned_folder(path)->Ok_0->Some_0;
    let head: Seq<char> = "file=fat:"@;
    let mode: Seq<char> = if rw {
        "rw:"@
    } else {
        Seq::<char>::empty()
    };
    let tail: Seq<char> = ",format=raw,index=1"@;
    reveal_strlit("file=fat:");
    reveal_strlit("rw:");
    reveal_strlit(",format=raw,index=1");
    assert(!head.contains(',')) by {
        if head.contains(',') {
            let i = choose|i: int| 0 <= i < head.len() && head[i] == ',';
            assert(head[i] != ',');
        }
    }
    assert(!mode.contains(',')) by {
        if mode.contains(',') {
            let i = choose|i: int| 0 <= i < mode.len() && mode[i] == ',';
            assert(mode[i] != ',');
        }
    }
    lemma_count_absent(head, ',');
    lemma_count_absent(mode, ',');
    lemma_count_absent(dir, ',');
    let t1 = seq![','] + "format=raw"@;
    let t2 = seq![','] + "index=1"@;
    reveal_strlit("format=raw");
    reveal_strlit("index=1");
    assert(tail =~= t1 + t2);
    assert(!"format=raw"@.contains(',')) by {
        if "format=raw"@.contains(',') {
            let i = choose|i: int| 0 <= i < "format=raw"@.len() && "format=raw"@[i] == ',';
            assert("format=raw"@[i] != ',');
        }
    }
    assert(!"index=1"@.contains(',')) by {
        if "index=1"@.contains(',') {
            let i = choose|i: int| 0 <= i < "index=1"@.len() && "index=1"@[i] == ',';
            assert("index=1"@[i] != ',');
        }
    }
    lemma_count_absent("format=raw"@, ',');
    lemma_count_absent("index=1"@, ',');
    assert(count_char(seq![','], ',') == 1) by {
        let one: Seq<char> = seq![','];
        assert(one.drop_last() =~= Seq::<char>::empty());
        assert(count_char(one.drop_last(), ',') == 0);
        assert(one.last() == ',');
    }
    lemma_count_concat(seq![','], "format=raw"@, ',');
    lemma_count_concat(seq![','], "index=1"@, ',');
    lemma_count_concat(t1, t2, ',');
    lemma_count_concat(head, mode, ',');
    lemma_count_concat(head + mode, dir, ',');
    lemma_count_concat(head + mode + dir, tail, ',');
}

/// A running VM as a relaunch finds it again: same process and control ports;
/// the display ports are not recorded.
pub open spec fn detached(vm: RunningVm) -> RunningVm {
    RunningVm { vnc_display: 0, websocket_port: 0, owned: false, ..vm }
}

proof fn lemma_reconciled_prefix(ps: Seq<PersistedVm>, keep: Seq<bool>, n: int)
    requires
        0 <= n <= ps.len(),
        keep.len() == ps.len(),
        forall|i: int| 0 <= i < keep.len() ==> #[trigger] keep[i],
        forall|i: int, j: int|
            0 <= i < ps.len() && 0 <= j < ps.len() && i != j ==> #[trigger] ps[i].name@
                != #[trigger] ps[j].name@,
    ensures
        forall|k: Seq<char>|
            #[trigger] reconciled(Map::empty(), ps.take(n), keep.take(n)).contains_key(k) <==> exists|
                j: int,
            |
                0 <= j < n && #[trigger] ps[j].name@ == k,
        forall|j: int|
            0 <= j < n ==> reconciled(Map::empty(), ps.take(n), keep.take(n))[#[trigger] ps[j].name@]
                == reattached(ps[j]),
        kept(ps.take(n), keep.take(n)) == ps.take(n),
    decreases n,
{
    let m = reconciled(Map::empty(), ps.take(n), keep.take(n));
    if n == 0 {
        assert(ps.take(0).len() == 0);
        assert(m == Map::<Seq<char>, RunningVm>::empty());
        assert(kept(ps.take(0), keep.take(0)) =~= ps.take(0));
    } else {
        lemma_reconciled_prefix(ps, keep, n - 1);
        assert(ps.take(n).drop_last() =~= ps.take(n - 1));
        assert(keep.take(n).drop_last() =~= keep.take(n - 1));
        assert(ps.take(n).last() == ps[n - 1]);
        assert(keep.take(n).last() == keep[n - 1]);
        let prev = reconciled(Map::empty(), ps.take(n - 1), keep.take(n - 1));
        assert(m == prev.insert(ps[n - 1].name@, reattached(ps[n - 1])));
        assert forall|k: Seq<char>| #[trigger] m.contains_key(k) <==> exists|j: int|
            0 <= j < n && #[trigger] ps[j].name@ == k by {
            if m.contains_key(k) && k != ps[n - 1].name@ {
                assert(prev.contains_key(k));
            }
            if exists|j: int| 0 <= j < n && #[trigger] ps[j].name@ == k {
                let j = choose|j: int| 0 <= j < n && #[trigger] ps[j].name@ == k;
                if j < n - 1 {
                    assert(prev.contains_key(k));
                }
            }
        }
        assert(kept(ps.take(n), keep.take(n)) =~= ps.take(n));
    }
}

/// A relaunch reattaches to every VM the previous session recorded: when each
/// recorded process is alive and QMP reports each recorded name, reconciling a
/// fresh registry with the record written from `r` gives back every VM of `r`,
/// with its process and control ports, and keeps the whole record.
pub proof fn law_relaunch_reattaches(
    r: Registry,
    persisted: Seq<PersistedVm>,
    reported: Seq<Option<String>>,
)
    requires
        r.wf(),
        persisted.len() == r.keys().len(),
        forall|i: int|
            0 <= i < persisted.len() ==> persisted_matches(
                #[trigger] persisted[i],
                r.keys()[i],
                r.view()[r.keys()[i]],
            ),
        reported.len() == persisted.len(),
        forall|i: int|
            0 <= i < persisted.len() ==> (#[trigger] reported[i] matches Some(n) && n@
                == persisted[i].name@),
    ensures
        ({
            let keep = keep_flags(persisted, Seq::new(persisted.len(), |i: int| true), reported);
            &&& kept(persisted, keep) == persisted
            &&& reconciled(Map::empty(), persisted, keep) == r.view().map_values(
                |vm: RunningVm| detached(vm),
            )
        }),
{
    r.lemma_keys();
    let n = persisted.len() as int;
    let alive = Seq::new(persisted.len(), |i: int| true);
    let keep = keep_flags(persisted, alive, reported);
    assert forall|i: int| 0 <= i < keep.len() implies #[trigger] keep[i] by {
        assert(reported[i] matches Some(nm) && nm@ == persisted[i].name@);
    }
    assert forall|i: int, j: int|
        0 <= i < persisted.len() && 0 <= j < persisted.len() && i != j implies #[trigger] persisted[i].name@
        != #[trigger] persisted[j].name@ by {
        assert(persisted_matches(persisted[i], r.keys()[i], r.view()[r.keys()[i]]));
        assert(persisted_matches(persisted[j], r.keys()[j], r.view()[r.keys()[j]]));
    }
    lemma_reconciled_prefix(persisted, keep, n);
    assert(persisted.take(n) =~= persisted);
    assert(keep.take(n) =~= keep);
    let m = reconciled(Map::empty(), persisted, keep);
    let expected = r.view().map_values(|vm: RunningVm| detached(vm));
    assert forall|k: Seq<char>| #[trigger] m.contains_key(k) == expected.contains_key(k) by {
        if m.contains_key(k) {
            let j = choose|j: int| 0 <= j < n && #[trigger] persisted[j].name@ == k;
            assert(persisted_matches(persisted[j], r.keys()[j], r.view()[r.keys()[j]]));
            assert(r.keys().contains(k));
        }
        if r.view().contains_key(k) {
            assert(r.keys().contains(k));
            let j = choose|j: int| 0 <= j < r.keys().len() && r.keys()[j] == k;
            assert(persisted_matches(persisted[j], r.keys()[j], r.view()[r.keys()[j]]));
            assert(persisted[j].name@ == k);
        }
    }
    assert forall|k: Seq<char>| #[trigger] m.contains_key(k) implies m[k] == expected[k] by {
        let j = choose|j: int| 0 <= j < n && #[trigger] persisted[j].name@ == k;
        assert(persisted_matches(persisted[j], r.keys()[j], r.view()[r.keys()[j]]));
    }
    assert(m =~= expected);
}

/// Where the `-netdev` flag stands in a VM's command line: after the twelve
/// leading arguments, the shared-folder drive (two, when a non-empty folder is
/// set), the install CD (four, when a non-empty ISO is set) and the three of
/// the USB tablet.
pub open spec fn netdev_index(cfg: VmConfig) -> int {
    12 + (match cfg.shared_folder {
        Some(d) => if d@.len() > 0 {
            2int
        } else {
            0int
        },
        None => 0int,
    }) + (match cfg.iso_path {
        Some(i) => if i@.len() > 0 {
            4int
        } else {
            0int
        },
        None => 0int,
    }) + 3
}

proof fn lemma_netdev_arg(cfg: VmConfig, ports: LaunchPorts, platform: Platform)
    requires
        cfg.net_mode@ != "none"@,
    ensures
        qemu_args(cfg, ports, platform)[netdev_index(cfg)] == "-netdev"@,
        qemu_args(cfg, ports, platform)[netdev_index(cfg) + 1] == netdev_option(cfg),
{
    let a = qemu_args(cfg, ports, platform);
    let pre = base_args(cfg, platform) + shared_args(cfg) + iso_args(cfg) + tablet_args();
    let with_net = pre + net_args(cfg);
    assert(base_args(cfg, platform).len() == 12);
    assert(pre.len() == netdev_index(cfg));
    assert(net_args(cfg)[0] == "-netdev"@);
    assert(net_args(cfg)[1] == netdev_option(cfg));
    assert(with_net[netdev_index(cfg)] == "-netdev"@);
    assert(with_net[netdev_index(cfg) + 1] == netdev_option(cfg));
    assert(a[netdev_index(cfg)] == with_net[netdev_index(cfg)]);
    assert(a[netdev_index(cfg) + 1] == with_net[netdev_index(cfg) + 1]);
}

/// A VM with a network and no port forwards gets the user-mode backend
/// `user,id=net0`, restricted (`,restrict=on`) exactly when it is isolated.
pub proof fn law_netdev_without_forwards(cfg: VmConfig, ports: LaunchPorts, platform: Platform)
    requires
        cfg.net_mode@ != "none"@,
        cfg.port_forwards@.len() == 0,
    ensures
        qemu_args(cfg, ports, platform)[netdev_index(cfg)] == "-netdev"@,
        qemu_args(cfg, ports, platform)[netdev_index(cfg) + 1] == "user,id=net0"@ + (if cfg.net_mode@
            == "isolated"@ {
            ",restrict=on"@
        } else {
            Seq::<char>::empty()
        }),
{
    lemma_netdev_arg(cfg, ports, platform);
    assert(hostfwd_rules(cfg.port_forwards@) == Seq::<char>::empty());
    assert(netdev_option(cfg) =~= "user,id=net0"@ + (if cfg.net_mode@ == "isolated"@ {
        ",restrict=on"@
    } else {
        Seq::<char>::empty()
    }));
}

/// Whatever the networking mode (other than none), adding one port forward to a
/// VM appends exactly its rule `,hostfwd=<proto>::<host>-:<guest>` to the
/// `-netdev` option, the protocol being UDP when it says "udp" and TCP otherwise.
pub proof fn law_port_forward_appends_rule(
    cfg: VmConfig,
    more: VmConfig,
    pf: PortForward,
    ports: LaunchPorts,
    platform: Platform,
)
    requires
        cfg.net_mode@ != "none"@,
        more == (VmConfig { port_forwards: more.port_forwards, ..cfg }),
        more.port_forwards@ == cfg.port_forwards@.push(pf),
    ensures
        netdev_index(more) == netdev_index(cfg),
        qemu_args(more, ports, platform)[netdev_index(more)] == "-netdev"@,
        qemu_args(more, ports, platform)[netdev_index(more) + 1] == qemu_args(cfg, ports, platform)[netdev_index(cfg) + 1]
            + ",hostfwd="@ + (if pf.protocol@ == "udp"@ {
            "udp"@
        } else {
            "tcp"@
        }) + "::"@ + decimal(pf.host_port as nat) + "-:"@ + decimal(pf.guest_port as nat),
{
    lemma_netdev_arg(cfg, ports, platform);
    lemma_netdev_arg(more, ports, platform);
    lemma_netdev_push(cfg, more, pf);
}

proof fn lemma_netdev_push(cfg: VmConfig, more: VmConfig, pf: PortForward)
    requires
        more == (VmConfig { port_forwards: more.port_forwards, ..cfg }),
        more.port_forwards@ == cfg.port_forwards@.push(pf),
    ensures
        netdev_option(more) == netdev_option(cfg) + ",hostfwd="@ + (if pf.protocol@ == "udp"@ {
            "udp"@
        } else {
            "tcp"@
        }) + "::"@ + decimal(pf.host_port as nat) + "-:"@ + decimal(pf.guest_port as nat),
{
    let pfs = more.port_forwards@;
    assert(pfs.drop_last() =~= cfg.port_forwards@);
    assert(pfs.last() == pf);
    let rule = crate::qemu::hostfwd_rule(pf);
    assert(hostfwd_rules(pfs) == hostfwd_rules(cfg.port_forwards@) + rule);
    let head = "user,id=net0"@ + (if cfg.net_mode@ == "isolated"@ {
        ",restrict=on"@
    } else {
        Seq::<char>::empty()
    });
    assert(netdev_option(more) == head + hostfwd_rules(pfs));
    assert(netdev_option(cfg) == head + hostfwd_rules(cfg.port_forwards@));
    assert(netdev_option(more) =~= netdev_option(cfg) + rule);
    assert(netdev_option(cfg) + rule =~= netdev_option(cfg) + ",hostfwd="@ + (if pf.protocol@ == "udp"@ {
        "udp"@
    } else {
        "tcp"@
    }) + "::"@ + decimal(pf.host_port as nat) + "-:"@ + decimal(pf.guest_port as nat));
}

/// A listed snapshot carries the entry's `name` string (empty without one),
/// its `vm-state-size` when that is a non-negative integer (0 otherwise: a
/// disk-only snapshot) and its `date-sec` when that is an integer in range
/// (0 otherwise).
pub proof fn law_snapshot_fields(s: crate::qemu::Snapshot, e: JsonValue)
    requires
        snapshot_matches(s, e),
    ensures
        match json_get(e, "name"@) {
            Some(JsonValue::Str(t)) => s.tag@ == t@,
            _ => s.tag@.len() == 0,
        },
        match json_get(e, "vm-state-size"@) {
            Some(JsonValue::Number(JsonNumber::PosInt(n))) => s.vm_state_size == n,
            _ => s.vm_state_size == 0,
        },
        match json_get(e, "date-sec"@) {
            Some(JsonValue::Number(JsonNumber::PosInt(n))) => s.date_sec == (if n <= i64::MAX as u64 {
                n as i64
            } else {
                0i64
            }),
            Some(JsonValue::Number(JsonNumber::NegInt(n))) => s.date_sec == n,
            _ => s.date_sec == 0,
        },
{
}

/// Editing a VM carries every edited setting, whatever the old configuration
/// held; only the name, disk and size are kept from it.
pub proof fn law_edit_applies_settings(r: VmConfig, cfg: VmConfig, settings: VmSettings)
    requires
        is_update_of(r, cfg, settings),
    ensures
        r.name == cfg.name,
        r.disk_path == cfg.disk_path,
        r.disk_size_gb == cfg.disk_size_gb,
        r.memory_mb == settings.memory_mb,
        r.cpus == settings.cpus,
        r.display_adapter == settings.display_adapter,
        r.nic_model == settings.nic_model,
        r.port_forwards == settings.port_forwards,
        r.net_mode == settings.net_mode,
        r.acceleration == settings.acceleration,
        r.shared_folder == settings.shared_folder,
        r.shared_folder_writable == settings.shared_folder_writable,
        match settings.iso_path {
            Some(p) => if p@.len() > 0 {
                r.iso_path == Some(p)
            } else {
                r.iso_path is None
            },
            None => r.iso_path is None,
        },
{
}

/// Text order compares the first differing character, a proper prefix coming first.
pub proof fn law_text_order(a: Seq<char>, b: Seq<char>, i: int)
    requires
        0 <= i <= a.len(),
        i <= b.len(),
        a.take(i) == b.take(i),
    ensures
        i < a.len() && i < b.len() && a[i] < b[i] ==> text_lt(a, b),
        i == a.len() && i < b.len() ==> text_lt(a, b),
    decreases i,
{
    if i > 0 {
        assert(a[0] == a.take(i)[0]);
        assert(b[0] == b.take(i)[0]);
        assert(a.drop_first().take(i - 1) =~= b.drop_first().take(i - 1)) by {
            assert forall|k: int| 0 <= k < i - 1 implies a.drop_first()[k] == b.drop_first()[k] by {
                assert(a[k + 1] == a.take(i)[k + 1]);
                assert(b[k + 1] == b.take(i)[k + 1]);
            }
        }
        law_text_order(a.drop_first(), b.drop_first(), i - 1);
    }
}

/// The VM list goes by the lower-cased whole name: a VM is never listed after
/// one whose lower-cased name comes later.
pub proof fn law_list_by_lowercased_name(vms: Seq<VmConfig>, r: Seq<VmConfig>)
    requires
        r.len() == vms.len(),
        sorted_by_name(vms, r),
    ensures
        forall|a: int, b: int|
            0 <= a < b < r.len() ==> !text_lt(lowercased(r[b].name@), lowercased(r[a].name@)),
{
    law_list_sorted(vms, r);
    assert forall|a: int, b: int| 0 <= a < b < r.len() implies !text_lt(
        lowercased(r[b].name@),
        lowercased(r[a].name@),
    ) by {
        assert(name_key(r[a]) == lowercased(r[a].name@));
        assert(name_key(r[b]) == lowercased(r[b].name@));
    }
}

/// A snapshot name is refused exactly when it is empty, holds whitespace, or
/// holds one of `/ \ : * ? " < > | '`; every other name is accepted.
pub proof fn law_tag_accepted(tag: Seq<char>)
    ensures
        (tag_error(tag) is None) <==> (tag.len() > 0 && forall|i: int|
            0 <= i < tag.len() ==> {
                let c = #[trigger] tag[i];
                &&& !is_ws(c)
                &&& c != '/'
                &&& c != '\\'
                &&& c != ':'
                &&& c != '*'
                &&& c != '?'
                &&& c != '"'
                &&& c != '<'
                &&& c != '>'
                &&& c != '|'
                &&& c != '\''
            }),
{
    let f = crate::control::tag_forbidden_chars();
    assert forall|c: char| f.contains(c) <==> (c == '/' || c == '\\' || c == ':' || c == '*' || c == '?'
        || c == '"' || c == '<' || c == '>' || c == '|' || c == '\'') by {
        if c == '/' { assert(f[0] == c); }
        if c == '\\' { assert(f[1] == c); }
        if c == ':' { assert(f[2] == c); }
        if c == '*' { assert(f[3] == c); }
        if c == '?' { assert(f[4] == c); }
        if c == '"' { assert(f[5] == c); }
        if c == '<' { assert(f[6] == c); }
        if c == '>' { assert(f[7] == c); }
        if c == '|' { assert(f[8] == c); }
        if c == '\'' { assert(f[9] == c); }
    }
}

} // verus!
