use yodawg::qemu::LaunchPorts;
use yodawg::runtime::{not_running_message, running_info, Registry, RunningVm};
use yodawg::session::PersistedVm;
use yodawg::vm::VmConfig;

fn vm(pid: u32, base: u16) -> RunningVm {
    RunningVm::launched(pid, &LaunchPorts { vnc_display: base, websocket_port: base + 1, qmp_port: base + 2, spice_port: base + 3 })
}

fn cfg(name: &str) -> VmConfig {
    VmConfig {
        name: name.to_string(),
        memory_mb: 64,
        cpus: 1,
        disk_path: String::new(),
        disk_size_gb: 1,
        iso_path: None,
        display_adapter: "std".to_string(),
        nic_model: "e1000".to_string(),
        port_forwards: Vec::new(),
        net_mode: "nat".to_string(),
        mac_address: None,
        acceleration: "auto".to_string(),
        shared_folder: None,
        shared_folder_writable: false,
    }
}

#[test]
fn insert_get_remove() {
    let mut r = Registry::new();
    assert!(!r.any_running());
    assert_eq!(r.get("dos"), None);
    r.insert("dos".to_string(), vm(100, 10));
    r.insert("win".to_string(), vm(200, 20));
    assert!(r.any_running());
    assert_eq!(r.get("dos"), Some(vm(100, 10)));
    r.insert("dos".to_string(), vm(101, 30));
    assert_eq!(r.get("dos"), Some(vm(101, 30)));
    assert_eq!(r.names(), vec!["dos".to_string(), "win".to_string()]);
    assert_eq!(r.remove("dos"), Some(vm(101, 30)));
    assert_eq!(r.remove("dos"), None);
    assert!(!r.contains("dos"));
    assert!(r.contains("win"));
}

#[test]
fn prune_forgets_exited() {
    let mut r = Registry::new();
    r.insert("a".to_string(), vm(1, 10));
    r.insert("b".to_string(), vm(2, 20));
    r.insert("c".to_string(), vm(3, 30));
    r.prune(&vec!["a".to_string(), "c".to_string(), "zzz".to_string()]);
    assert_eq!(r.names(), vec!["b".to_string()]);
    assert_eq!(r.get("b"), Some(vm(2, 20)));
}

#[test]
fn command_checks() {
    let mut r = Registry::new();
    r.insert("dos".to_string(), vm(7, 40));
    assert_eq!(r.check_can_start("dos"), Err("'dos' is already running".to_string()));
    assert_eq!(r.check_can_start("win"), Ok(()));
    assert_eq!(r.check_can_delete("dos"), Err("Stop the VM before deleting it".to_string()));
    assert_eq!(r.check_can_delete("win"), Ok(()));
    assert_eq!(r.running_qmp_port("dos"), Ok(42));
    assert_eq!(r.running_qmp_port("win"), Err("'win' is not running".to_string()));
    assert_eq!(r.qmp_port_if_running("dos"), Some(42));
    assert_eq!(r.qmp_port_if_running("win"), None);
    assert_eq!(not_running_message("x"), "'x' is not running");
}

#[test]
fn viewer_address() {
    let mut r = Registry::new();
    r.insert("dos".to_string(), vm(7, 40));
    assert_eq!(r.spice_url("dos"), Ok("spice://127.0.0.1:43".to_string()));
    assert_eq!(r.spice_url("win"), Err("'win' is not running".to_string()));
    r.insert("old".to_string(), RunningVm { pid: 1, vnc_display: 0, websocket_port: 0, qmp_port: 5, spice_port: 0, owned: false });
    assert_eq!(
        r.spice_url("old"),
        Err("This VM was started before SPICE support \u{2014} stop and start it again to open it in virt-viewer.".to_string())
    );
}

#[test]
fn kill_takes_the_entry() {
    let mut r = Registry::new();
    r.insert("dos".to_string(), vm(7, 40));
    assert_eq!(r.take_for_kill("dos"), Ok(vm(7, 40)));
    assert_eq!(r.take_for_kill("dos"), Err("'dos' is not running".to_string()));
}

#[test]
fn statuses_and_info() {
    let mut r = Registry::new();
    r.insert("dos".to_string(), vm(7, 40));
    let st = r.statuses(vec![cfg("dos"), cfg("win")]);
    assert_eq!(st.len(), 2);
    assert!(st[0].running);
    assert_eq!(st[0].websocket_port, Some(41));
    assert_eq!(st[0].config, cfg("dos"));
    assert!(!st[1].running);
    assert_eq!(st[1].websocket_port, None);
    let info = running_info("dos", &vm(7, 40), true);
    assert_eq!(info.name, "dos");
    assert_eq!((info.vnc_display, info.websocket_port, info.qmp_port, info.spice_port), (40, 41, 42, 43));
    assert!(info.paused);
}

#[test]
fn law_relaunch_reattaches() {
    let mut before = Registry::new();
    before.insert("dos".to_string(), vm(100, 10));
    before.insert("win".to_string(), vm(200, 20));
    let record = before.to_persisted();
    assert_eq!(
        record,
        vec![
            PersistedVm { name: "dos".to_string(), pid: 100, qmp_port: 12, spice_port: 13 },
            PersistedVm { name: "win".to_string(), pid: 200, qmp_port: 22, spice_port: 23 },
        ]
    );
    let mut after = Registry::new();
    let reported: Vec<Option<String>> = record.iter().map(|p| Some(p.name.clone())).collect();
    let survivors = after.reconcile(&record, &vec![true, true], &reported);
    assert_eq!(survivors, record);
    assert_eq!(
        after.get("dos"),
        Some(RunningVm { pid: 100, vnc_display: 0, websocket_port: 0, qmp_port: 12, spice_port: 13, owned: false })
    );
    assert_eq!(after.get("win").map(|v| v.pid), Some(200));
}

#[test]
fn reconcile_drops_dead_and_impostors() {
    let record = vec![
        PersistedVm { name: "dead".to_string(), pid: 1, qmp_port: 2, spice_port: 3 },
        PersistedVm { name: "reused".to_string(), pid: 4, qmp_port: 5, spice_port: 6 },
        PersistedVm { name: "silent".to_string(), pid: 7, qmp_port: 8, spice_port: 9 },
        PersistedVm { name: "ok".to_string(), pid: 10, qmp_port: 11, spice_port: 0 },
    ];
    let mut r = Registry::new();
    let survivors = r.reconcile(
        &record,
        &vec![false, true, true, true],
        &vec![Some("dead".to_string()), Some("other".to_string()), None, Some("ok".to_string())],
    );
    assert_eq!(survivors, vec![record[3].clone()]);
    assert_eq!(r.names(), vec!["ok".to_string()]);
}
