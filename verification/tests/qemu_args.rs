use yodawg::qemu::{
    accelerator, build_args, cpu_model, derive_mac, effective_accel, img_binary, install_dir,
    is_virt_viewer_dir, live_snapshots_supported, mac_from_hash, system_binary, viewer_binary, LaunchPorts, Platform,
};
use yodawg::vm::{PortForward, VmConfig};

fn config() -> VmConfig {
    VmConfig {
        name: "dos".to_string(),
        memory_mb: 512,
        cpus: 2,
        disk_path: "/data/machines/dos/disk.qcow2".to_string(),
        disk_size_gb: 10,
        iso_path: None,
        display_adapter: "std".to_string(),
        nic_model: "e1000".to_string(),
        port_forwards: Vec::new(),
        net_mode: "nat".to_string(),
        mac_address: Some("52:54:00:aa:bb:cc".to_string()),
        acceleration: "auto".to_string(),
        shared_folder: None,
        shared_folder_writable: false,
    }
}

fn ports() -> LaunchPorts {
    LaunchPorts { vnc_display: 3, websocket_port: 41001, qmp_port: 41002, spice_port: 41003 }
}

fn tail(ports: &LaunchPorts) -> Vec<String> {
    vec![
        "-vga".to_string(),
        "std".to_string(),
        "-display".to_string(),
        "none".to_string(),
        "-vnc".to_string(),
        format!("127.0.0.1:{},websocket={}", ports.vnc_display, ports.websocket_port),
        "-spice".to_string(),
        format!("port={},addr=127.0.0.1,disable-ticketing=on", ports.spice_port),
        "-device".to_string(),
        "virtio-serial-pci".to_string(),
        "-chardev".to_string(),
        "spicevmc,id=spicechannel0,name=vdagent".to_string(),
        "-device".to_string(),
        "virtserialport,chardev=spicechannel0,name=com.redhat.spice.0".to_string(),
        "-qmp".to_string(),
        format!("tcp:127.0.0.1:{},server,nowait", ports.qmp_port),
    ]
}

#[test]
fn build_args_minimal_windows() {
    let cfg = config();
    let p = ports();
    let args = build_args(&cfg, &p, Platform::Windows);
    let mut expected: Vec<String> = vec![
        "-accel", "whpx", "-cpu", "qemu64", "-m", "512", "-smp", "2", "-drive",
        "file=/data/machines/dos/disk.qcow2,format=qcow2,cache=writethrough", "-name", "dos",
        "-usb", "-device", "usb-tablet", "-netdev", "user,id=net0", "-device",
        "e1000,netdev=net0,mac=52:54:00:aa:bb:cc",
    ]
    .into_iter()
    .map(String::from)
    .collect();
    expected.extend(tail(&p));
    assert_eq!(args, expected);
}

#[test]
fn build_args_everything_on_linux() {
    let mut cfg = config();
    cfg.iso_path = Some("/isos/freedos.iso".to_string());
    cfg.shared_folder = Some("/home/me/share".to_string());
    cfg.shared_folder_writable = true;
    cfg.net_mode = "isolated".to_string();
    cfg.nic_model = "ne2k".to_string();
    cfg.display_adapter = "qxl".to_string();
    cfg.port_forwards = vec![
        PortForward { host_port: 2222, guest_port: 22, protocol: "tcp".to_string() },
        PortForward { host_port: 5353, guest_port: 53, protocol: "udp".to_string() },
        PortForward { host_port: 8080, guest_port: 80, protocol: "sctp".to_string() },
    ];
    let p = ports();
    let args = build_args(&cfg, &p, Platform::Other);
    assert_eq!(&args[0..4], &["-accel", "kvm", "-cpu", "host"]);
    assert_eq!(&args[12..14], &["-drive", "file=fat:rw:/home/me/share,format=raw,index=1"]);
    assert_eq!(
        &args[14..18],
        &["-cdrom", "/isos/freedos.iso", "-boot", "order=cd,menu=on,splash-time=4000"]
    );
    assert_eq!(&args[18..21], &["-usb", "-device", "usb-tablet"]);
    assert_eq!(args[21], "-netdev");
    assert_eq!(
        args[22],
        "user,id=net0,restrict=on,hostfwd=tcp::2222-:22,hostfwd=udp::5353-:53,hostfwd=tcp::8080-:80"
    );
    assert_eq!(args[24], "ne2k_isa,netdev=net0,mac=52:54:00:aa:bb:cc");
    assert_eq!(&args[25..27], &["-vga", "qxl"]);
    assert_eq!(args.len(), 41);
}

#[test]
fn build_args_no_network_and_read_only_folder() {
    let mut cfg = config();
    cfg.net_mode = "none".to_string();
    cfg.shared_folder = Some("/srv".to_string());
    cfg.iso_path = Some(String::new());
    cfg.acceleration = "tcg".to_string();
    let p = ports();
    let args = build_args(&cfg, &p, Platform::MacOs);
    assert_eq!(&args[0..4], &["-accel", "tcg", "-cpu", "qemu64"]);
    assert_eq!(&args[12..14], &["-drive", "file=fat:/srv,format=raw,index=1"]);
    assert_eq!(&args[14..17], &["-usb", "-device", "usb-tablet"]);
    assert_eq!(&args[17..19], &["-nic", "none"]);
    assert!(!args.iter().any(|a| a == "-cdrom"));
}

#[test]
fn build_args_empty_folder_is_no_folder_and_nic_models() {
    let mut cfg = config();
    cfg.shared_folder = Some(String::new());
    for (model, device) in [("rtl8139", "rtl8139"), ("virtio", "virtio-net-pci"), ("e1000", "e1000"), ("weird", "e1000")] {
        cfg.nic_model = model.to_string();
        let args = build_args(&cfg, &ports(), Platform::Other);
        assert_eq!(args[12], "-usb");
        assert_eq!(args[18], format!("{device},netdev=net0,mac=52:54:00:aa:bb:cc"));
    }
    cfg.display_adapter = "virtio".to_string();
    let args = build_args(&cfg, &ports(), Platform::Other);
    assert_eq!(&args[19..21], &["-vga", "virtio"]);
}

#[test]
fn build_args_falls_back_to_derived_mac() {
    let mut cfg = config();
    cfg.mac_address = None;
    let args = build_args(&cfg, &ports(), Platform::Other);
    assert_eq!(args[18], format!("e1000,netdev=net0,mac={}", derive_mac("dos")));
}

#[test]
fn law_guest_named_and_qmp_last() {
    let cfg = config();
    let p = ports();
    let args = build_args(&cfg, &p, Platform::Windows);
    assert_eq!(args[10], "-name");
    assert_eq!(args[11], "dos");
    assert_eq!(args[args.len() - 2], "-qmp");
    assert_eq!(args[args.len() - 1], "tcp:127.0.0.1:41002,server,nowait");
}

#[test]
fn accelerators_per_platform() {
    assert_eq!(accelerator(Platform::Windows), "whpx");
    assert_eq!(accelerator(Platform::MacOs), "hvf");
    assert_eq!(accelerator(Platform::Other), "kvm");
    let mut cfg = config();
    assert_eq!(effective_accel(&cfg, Platform::MacOs), "hvf");
    assert_eq!(cpu_model(&cfg, Platform::MacOs), "host");
    assert_eq!(cpu_model(&cfg, Platform::Windows), "qemu64");
    cfg.acceleration = "tcg".to_string();
    assert_eq!(effective_accel(&cfg, Platform::Windows), "tcg");
    assert_eq!(cpu_model(&cfg, Platform::Other), "qemu64");
}

#[test]
fn law_live_snapshots_by_accelerator() {
    let mut cfg = config();
    assert!(!live_snapshots_supported(&cfg, Platform::Windows));
    assert!(!live_snapshots_supported(&cfg, Platform::MacOs));
    assert!(live_snapshots_supported(&cfg, Platform::Other));
    cfg.acceleration = "tcg".to_string();
    assert!(live_snapshots_supported(&cfg, Platform::Windows));
    assert!(live_snapshots_supported(&cfg, Platform::MacOs));
    assert!(live_snapshots_supported(&cfg, Platform::Other));
}

#[test]
fn binaries_per_platform() {
    let w = system_binary(Some("C:/qemu"), Platform::Windows);
    assert_eq!(w.dir, Some("C:/qemu"));
    assert_eq!(w.file, "qemu-system-x86_64.exe");
    let l = system_binary::<&str>(None, Platform::Other);
    assert_eq!(l.dir, None);
    assert_eq!(l.file, "qemu-system-x86_64");
    assert_eq!(img_binary::<&str>(None, Platform::Windows).file, "qemu-img.exe");
    assert_eq!(img_binary::<&str>(None, Platform::MacOs).file, "qemu-img");
    assert_eq!(install_dir(Some(5)), Some(5));
    assert_eq!(viewer_binary(), Some("remote-viewer".to_string()));
}

#[test]
fn mac_from_hash_exact() {
    assert_eq!(mac_from_hash(0), "52:54:00:00:00:00");
    assert_eq!(mac_from_hash(0x00ab_cdef), "52:54:00:ab:cd:ef");
    assert_eq!(mac_from_hash(0xffff_ffff_0102_0304), "52:54:00:02:03:04");
}

#[test]
fn law_mac_shape_and_determinism() {
    let a = derive_mac("win31");
    let b = derive_mac("win31");
    assert_eq!(a, b);
    assert_eq!(a.len(), 17);
    assert!(a.starts_with("52:54:00:"));
    for (i, c) in a.chars().enumerate() {
        if i % 3 == 2 {
            assert_eq!(c, ':');
        } else {
            assert!(c.is_ascii_hexdigit() && !c.is_ascii_uppercase());
        }
    }
    assert_ne!(derive_mac("win31"), derive_mac("freedos"));
}

#[test]
fn virt_viewer_install_dirs() {
    assert!(is_virt_viewer_dir("VirtViewer v11.0-256"));
    assert!(is_virt_viewer_dir("VirtViewer"));
    assert!(!is_virt_viewer_dir("Virt"));
    assert!(!is_virt_viewer_dir("virtviewer"));
    assert!(!is_virt_viewer_dir("QEMU"));
}
