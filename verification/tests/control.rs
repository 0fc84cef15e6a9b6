use yodawg::control::{
    apply_update, check_new_vm, clean_shared_folder, create_snapshot_plan, delete_snapshot_plan,
    detach_iso, launch_failure_message, new_vm_config, restore_snapshot_plan, validate_tag,
    validate_update, SnapshotPlan, VmSettings,
};
use yodawg::qemu::{build_args, derive_mac, LaunchPorts, Platform};
use yodawg::vm::{PortForward, VmConfig};

const LIVE_REFUSAL: &str = "Live snapshots aren't supported by this VM's accelerator (WHPX on Windows / HVF on macOS). Shut the VM down first, then snapshot its disk.";

fn settings() -> VmSettings {
    VmSettings {
        memory_mb: 1024,
        cpus: 2,
        iso_path: Some("/isos/a.iso".to_string()),
        display_adapter: "virtio".to_string(),
        nic_model: "virtio".to_string(),
        port_forwards: vec![PortForward { host_port: 8022, guest_port: 22, protocol: "tcp".to_string() }],
        net_mode: "nat".to_string(),
        acceleration: "auto".to_string(),
        shared_folder: None,
        shared_folder_writable: false,
    }
}

#[test]
fn shared_folder_cleaning() {
    assert_eq!(clean_shared_folder(None), Ok(None));
    assert_eq!(clean_shared_folder(Some("   ".to_string())), Ok(None));
    assert_eq!(clean_shared_folder(Some(" /srv/share ".to_string())), Ok(Some("/srv/share".to_string())));
    assert_eq!(
        clean_shared_folder(Some("/srv/a,b".to_string())),
        Err("Shared-folder path can't contain a comma".to_string())
    );
}

#[test]
fn snapshot_names() {
    assert_eq!(validate_tag("before-upgrade_2"), Ok(()));
    assert_eq!(validate_tag(""), Err("Snapshot name cannot be empty".to_string()));
    for bad in ["a b", "a\tb", "x/y", "x\\y", "c:", "*", "?", "\"q\"", "<", ">", "|", "it's"] {
        assert_eq!(validate_tag(bad), Err("Snapshot name contains invalid characters".to_string()), "{bad}");
    }
}

#[test]
fn new_vm_names() {
    assert_eq!(check_new_vm("  Win 3.1  ", None), Ok(("Win 3.1".to_string(), None)));
    assert_eq!(check_new_vm("   ", None), Err("VM name cannot be empty".to_string()));
    assert_eq!(
        check_new_vm("dos", Some(" /srv ".to_string())),
        Ok(("dos".to_string(), Some("/srv".to_string())))
    );
    // The folder is checked before the name's characters.
    assert_eq!(
        check_new_vm("a/b", Some("x,y".to_string())),
        Err("Shared-folder path can't contain a comma".to_string())
    );
    for bad in ["a/b", "a\\b", "a:b", "a*", "a?", "a\"", "a<", "a>", "a|", "a,b"] {
        assert_eq!(
            check_new_vm(bad, None),
            Err("VM name can't contain any of  / \\ : * ? \" < > | ,".to_string())
        );
    }
}

#[test]
fn new_config_gets_derived_mac() {
    let cfg = new_vm_config("dos".to_string(), "/m/dos/disk.qcow2".to_string(), 8, settings());
    assert_eq!(cfg.name, "dos");
    assert_eq!(cfg.disk_path, "/m/dos/disk.qcow2");
    assert_eq!(cfg.disk_size_gb, 8);
    assert_eq!(cfg.memory_mb, 1024);
    assert_eq!(cfg.iso_path, Some("/isos/a.iso".to_string()));
    assert_eq!(cfg.mac_address, Some(derive_mac("dos")));
    let mut s = settings();
    s.iso_path = Some(String::new());
    assert_eq!(new_vm_config("x".to_string(), String::new(), 1, s).iso_path, None);
}

#[test]
fn update_validation() {
    assert_eq!(validate_update(63, 1, None), Err("Memory must be at least 64 MB".to_string()));
    assert_eq!(validate_update(64, 0, None), Err("Need at least 1 CPU".to_string()));
    assert_eq!(validate_update(0, 0, None), Err("Memory must be at least 64 MB".to_string()));
    assert_eq!(
        validate_update(64, 1, Some("a,b".to_string())),
        Err("Shared-folder path can't contain a comma".to_string())
    );
    assert_eq!(validate_update(64, 1, Some(" /x ".to_string())), Ok(Some("/x".to_string())));
}

#[test]
fn law_edit_keeps_mac() {
    let created = new_vm_config("dos".to_string(), "/d".to_string(), 8, settings());
    let ports = LaunchPorts { vnc_display: 0, websocket_port: 1, qmp_port: 2, spice_port: 3 };
    let before = build_args(&created, &ports, Platform::Other);
    let mut s = settings();
    s.memory_mb = 2048;
    let edited = apply_update(created.clone(), s);
    assert_eq!(edited.mac_address, created.mac_address);
    assert_eq!(edited.memory_mb, 2048);
    let after = build_args(&edited, &ports, Platform::Other);
    assert_eq!(before[18], after[18]);

    // A configuration from before MACs were stored gets the MAC it fell back to.
    let mut legacy = created.clone();
    legacy.mac_address = None;
    let legacy_args = build_args(&legacy, &ports, Platform::Other);
    let backfilled = apply_update(legacy, settings());
    assert_eq!(backfilled.mac_address, Some(derive_mac("dos")));
    assert_eq!(build_args(&backfilled, &ports, Platform::Other)[18], legacy_args[18]);
}

#[test]
fn detaching_iso() {
    let cfg = new_vm_config("dos".to_string(), "/d".to_string(), 8, settings());
    let d = detach_iso(cfg.clone());
    assert_eq!(d.iso_path, None);
    assert_eq!(VmConfig { iso_path: cfg.iso_path.clone(), ..d }, cfg);
}

#[test]
fn snapshot_routing() {
    match create_snapshot_plan(Some(4444), true, "t1") {
        SnapshotPlan::Live { port, command_line } => {
            assert_eq!(port, 4444);
            assert_eq!(command_line, "savevm t1");
        }
        _ => panic!("expected a live plan"),
    }
    match create_snapshot_plan(Some(4444), false, "t1") {
        SnapshotPlan::Refused(m) => assert_eq!(m, LIVE_REFUSAL),
        _ => panic!("expected a refusal"),
    }
    assert!(matches!(create_snapshot_plan(None, false, "t1"), SnapshotPlan::Offline));
    match restore_snapshot_plan(Some(1), true, "t2") {
        SnapshotPlan::Live { command_line, .. } => assert_eq!(command_line, "loadvm t2"),
        _ => panic!("expected a live plan"),
    }
    assert!(matches!(restore_snapshot_plan(Some(1), false, "t2"), SnapshotPlan::Refused(_)));
    assert!(matches!(restore_snapshot_plan(None, true, "t2"), SnapshotPlan::Offline));
    match delete_snapshot_plan(Some(9), "t3") {
        SnapshotPlan::Live { port, command_line } => {
            assert_eq!(port, 9);
            assert_eq!(command_line, "delvm t3");
        }
        _ => panic!("expected a live plan"),
    }
    assert!(matches!(delete_snapshot_plan(None, "t3"), SnapshotPlan::Offline));
}

#[test]
fn launch_failures() {
    assert_eq!(launch_failure_message("exit code: 1", " \n"), "QEMU exited immediately (exit code: 1).");
    assert_eq!(
        launch_failure_message("exit code: 1", "qemu: could not load kernel\n"),
        "QEMU failed to start (exit code: 1):\nqemu: could not load kernel"
    );
}

#[test]
fn law_shared_drive_has_three_fields() {
    let folder = clean_shared_folder(Some(" /srv/share ".to_string())).unwrap();
    let mut cfg = new_vm_config("dos".to_string(), "/d".to_string(), 8, settings());
    cfg.shared_folder = folder;
    cfg.shared_folder_writable = true;
    let args = build_args(&cfg, &LaunchPorts { vnc_display: 0, websocket_port: 1, qmp_port: 2, spice_port: 3 }, Platform::Other);
    let fields: Vec<&str> = args[13].split(',').collect();
    assert_eq!(fields, vec!["file=fat:rw:/srv/share", "format=raw", "index=1"]);
}
