use yodawg::session::path;
use yodawg::vm::{
    config_file, default_acceleration, default_display_adapter, default_net_mode,
    default_nic_model, default_protocol, disk_image, log_file, machine_dir, machines_dir,
    sort_by_name, VmConfig,
};

fn parts(p: &[String]) -> Vec<&str> {
    p.iter().map(|s| s.as_str()).collect()
}

#[test]
fn store_locations() {
    let m = machines_dir("/data");
    assert_eq!(m.root, "/data");
    assert_eq!(parts(&m.parts), vec!["machines"]);
    assert_eq!(parts(&machine_dir("/data", "dos").parts), vec!["machines", "dos"]);
    assert_eq!(parts(&config_file("/data", "dos").parts), vec!["machines", "dos", "vm.json"]);
    assert_eq!(parts(&disk_image("/data", "dos").parts), vec!["machines", "dos", "disk.qcow2"]);
    assert_eq!(parts(&log_file("/data", "dos").parts), vec!["machines", "dos", "qemu.log"]);
    let s = path(7u8);
    assert_eq!(s.root, 7u8);
    assert_eq!(parts(&s.parts), vec!["running.json"]);
}

#[test]
fn defaults() {
    assert_eq!(default_protocol(), "tcp");
    assert_eq!(default_display_adapter(), "std");
    assert_eq!(default_nic_model(), "e1000");
    assert_eq!(default_net_mode(), "nat");
    assert_eq!(default_acceleration(), "auto");
}

fn cfg(name: &str, cpus: u32) -> VmConfig {
    VmConfig {
        name: name.to_string(),
        memory_mb: 64,
        cpus,
        disk_path: String::new(),
        disk_size_gb: 1,
        iso_path: None,
        display_adapter: "std".to_string(),
        nic_model: "e1000".to_string(),
        port_forwards: Vec::new(),
        net_mode: "nat".to_string(),
        mac_address: None,
        acceleration: "auto".to_string(),
        shared_folder: None,
        shared_folder_writable: false,
    }
}

#[test]
fn law_list_sorted_ignoring_case() {
    let sorted = sort_by_name(vec![cfg("b", 1), cfg("a", 1), cfg("B", 2), cfg("A", 3), cfg("c", 1)]);
    let names: Vec<(&str, u32)> = sorted.iter().map(|c| (c.name.as_str(), c.cpus)).collect();
    assert_eq!(names, vec![("a", 1), ("A", 3), ("b", 1), ("B", 2), ("c", 1)]);
    assert!(sort_by_name(Vec::new()).is_empty());
}

#[test]
fn sort_uses_lowercase_not_byte_order() {
    let sorted = sort_by_name(vec![cfg("a", 1), cfg("B", 1)]);
    assert_eq!(sorted[0].name, "a");
    assert_eq!(sorted[1].name, "B");
}
