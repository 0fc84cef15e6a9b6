use yodawg::json::{JsonMember, JsonNumber, JsonValue};
use yodawg::qemu::{
    create_disk_args, create_disk_failure, img_failure_message, snapshot_apply_offline,
    snapshot_create_offline, snapshot_delete_offline, snapshot_info_args, snapshots_from_info,
    version_line, Snapshot,
};
use yodawg::qmp::{
    capabilities_request, classify_reply, command_request, hmp_arguments, hmp_outcome,
    qmp_error_message, reported_name, reported_paused, QmpReply,
};

fn obj(members: Vec<(&str, JsonValue)>) -> JsonValue {
    JsonValue::Object(
        members.into_iter().map(|(k, v)| JsonMember { key: k.to_string(), value: v }).collect(),
    )
}

fn s(text: &str) -> JsonValue {
    JsonValue::Str(text.to_string())
}

#[test]
fn snapshots_with_defaults() {
    let info = obj(vec![
        ("virtual-size", JsonValue::Number(JsonNumber::PosInt(10737418240))),
        (
            "snapshots",
            JsonValue::Array(vec![
                obj(vec![
                    ("id", s("1")),
                    ("name", s("clean-install")),
                    ("vm-state-size", JsonValue::Number(JsonNumber::PosInt(0))),
                    ("date-sec", JsonValue::Number(JsonNumber::PosInt(1700000000))),
                ]),
                obj(vec![
                    ("name", JsonValue::Number(JsonNumber::PosInt(3))),
                    ("vm-state-size", JsonValue::Number(JsonNumber::NegInt(-1))),
                    ("date-sec", JsonValue::Number(JsonNumber::NegInt(-5))),
                ]),
                obj(vec![("date-sec", JsonValue::Number(JsonNumber::PosInt(u64::MAX)))]),
                obj(vec![("vm-state-size", JsonValue::Number(JsonNumber::Float("1.5".to_string())))]),
            ]),
        ),
    ]);
    let list = snapshots_from_info(&info);
    assert_eq!(
        list,
        vec![
            Snapshot { tag: "clean-install".to_string(), vm_state_size: 0, date_sec: 1700000000 },
            Snapshot { tag: String::new(), vm_state_size: 0, date_sec: -5 },
            Snapshot { tag: String::new(), vm_state_size: 0, date_sec: 0 },
            Snapshot { tag: String::new(), vm_state_size: 0, date_sec: 0 },
        ]
    );
}

#[test]
fn no_snapshots_key_means_none() {
    assert!(snapshots_from_info(&obj(vec![("format", s("qcow2"))])).is_empty());
    assert!(snapshots_from_info(&obj(vec![("snapshots", s("oops"))])).is_empty());
    assert!(snapshots_from_info(&JsonValue::Null).is_empty());
}

#[test]
fn img_arguments() {
    assert_eq!(snapshot_create_offline("/d.qcow2", "t1"), vec!["snapshot", "-c", "t1", "/d.qcow2"]);
    assert_eq!(snapshot_apply_offline("/d.qcow2", "t1"), vec!["snapshot", "-a", "t1", "/d.qcow2"]);
    assert_eq!(snapshot_delete_offline("/d.qcow2", "t1"), vec!["snapshot", "-d", "t1", "/d.qcow2"]);
    assert_eq!(snapshot_info_args("/d.qcow2"), vec!["info", "--output=json", "/d.qcow2"]);
    assert_eq!(create_disk_args("/d.qcow2", 20), vec!["create", "-f", "qcow2", "/d.qcow2", "20G"]);
}

#[test]
fn img_failures() {
    let args = snapshot_create_offline("/d.qcow2", "t1");
    assert_eq!(
        img_failure_message(&args, "  qemu-img: Could not open\n"),
        "qemu-img snapshot failed: qemu-img: Could not open"
    );
    assert_eq!(img_failure_message(&Vec::new(), "x"), "qemu-img  failed: x");
    assert_eq!(create_disk_failure("bad size\n"), "qemu-img create failed: bad size\n");
}

#[test]
fn version_lines() {
    assert_eq!(
        version_line("QEMU emulator version 9.1.0\r\nCopyright (c) 2003-2024\n"),
        "QEMU emulator version 9.1.0"
    );
    assert_eq!(version_line(""), "unknown");
    assert_eq!(version_line("\nsecond"), "");
}

#[test]
fn requests() {
    assert_eq!(capabilities_request(), obj(vec![("execute", s("qmp_capabilities"))]));
    assert_eq!(command_request("stop", JsonValue::Null), obj(vec![("execute", s("stop"))]));
    let args = hmp_arguments("savevm snap1");
    assert_eq!(args, obj(vec![("command-line", s("savevm snap1"))]));
    assert_eq!(
        command_request("human-monitor-command", hmp_arguments("savevm snap1")),
        obj(vec![
            ("execute", s("human-monitor-command")),
            ("arguments", obj(vec![("command-line", s("savevm snap1"))])),
        ])
    );
}

#[test]
fn reply_classification() {
    let ok = obj(vec![("return", obj(vec![]))]);
    assert!(matches!(classify_reply(&ok), QmpReply::Return));
    let err = obj(vec![("error", obj(vec![("class", s("GenericError")), ("desc", s("no"))]))]);
    match classify_reply(&err) {
        QmpReply::Error(e) => assert_eq!(e, &obj(vec![("class", s("GenericError")), ("desc", s("no"))])),
        _ => panic!("expected an error"),
    }
    let event = obj(vec![("event", s("STOP"))]);
    assert!(matches!(classify_reply(&event), QmpReply::Event));
    assert!(matches!(classify_reply(&JsonValue::Null), QmpReply::Event));
    assert_eq!(
        qmp_error_message("stop", "{\"class\":\"GenericError\"}"),
        "QMP error for 'stop': {\"class\":\"GenericError\"}"
    );
}

#[test]
fn hmp_outcomes() {
    assert_eq!(hmp_outcome(&obj(vec![("return", s(""))])), Ok(()));
    assert_eq!(hmp_outcome(&obj(vec![("return", s("  \r\n"))])), Ok(()));
    assert_eq!(hmp_outcome(&obj(vec![("return", obj(vec![]))])), Ok(()));
    assert_eq!(
        hmp_outcome(&obj(vec![("return", s("Error: Device 'ide0-hd0' does not exist\r\n"))])),
        Err("Error: Device 'ide0-hd0' does not exist".to_string())
    );
}

#[test]
fn reported_state() {
    let name = obj(vec![("return", obj(vec![("name", s("dos"))]))]);
    assert_eq!(reported_name(&name), Some("dos".to_string()));
    assert_eq!(reported_name(&obj(vec![("return", obj(vec![]))])), None);
    let st = obj(vec![("return", obj(vec![("running", JsonValue::Bool(false)), ("status", s("paused"))]))]);
    assert_eq!(reported_paused(&st), Some(true));
    let st = obj(vec![("return", obj(vec![("running", JsonValue::Bool(true))]))]);
    assert_eq!(reported_paused(&st), Some(false));
    assert_eq!(reported_paused(&JsonValue::Null), None);
}
