use syncthing_status::api::{base_url, completion_endpoint, trim_trailing_slashes};
use syncthing_status::model::{
    completion_tasks, connection_status, device_rows, folder_rows, folder_sync_status,
    this_device, CompletionIndex, CompletionKey, CompletionRecord, ConnectionEntry,
    ConnectionInfo, ConnectionStatus, Connections, Device, Folder, FolderSyncStatus, Percent,
    SyncStatus, SystemStatus,
};

const LOCAL: &str = "LOCAL00-AAAAAAA";
const REMOTE: &str = "REMOTE1-BBBBBBB";

fn device(id: &str, name: Option<&str>) -> Device {
    Device { device_id: id.to_string(), name: name.map(|n| n.to_string()) }
}

fn folder(id: &str, devices: &[&str]) -> Folder {
    Folder {
        id: id.to_string(),
        label: None,
        path: Some(format!("/data/{}", id)),
        devices: devices.iter().map(|d| d.to_string()).collect(),
    }
}

fn key(device: &str, folder: Option<&str>) -> CompletionKey {
    CompletionKey { device_id: device.to_string(), folder_id: folder.map(|f| f.to_string()) }
}

fn record(completion: Option<f64>, need_bytes: i64, need_items: i32) -> CompletionRecord {
    CompletionRecord {
        completion: completion.map(|c| Percent { bits: c.to_bits() }),
        need_bytes: Some(need_bytes),
        need_items: Some(need_items),
    }
}

fn conns(entries: Vec<(&str, bool, bool)>) -> Option<Connections> {
    Some(Connections {
        in_bytes_total: Some(2048),
        out_bytes_total: None,
        entries: Some(
            entries
                .into_iter()
                .map(|(id, connected, paused)| ConnectionEntry {
                    device_id: id.to_string(),
                    info: ConnectionInfo { connected: Some(connected), paused: Some(paused) },
                })
                .collect(),
        ),
    })
}

#[test]
fn out_of_sync_folder_device() {
    let folders = vec![folder("docs", &[LOCAL, REMOTE])];
    let devices = vec![device(LOCAL, Some("here")), device(REMOTE, Some("laptop"))];
    let keys = vec![key(REMOTE, Some("docs"))];
    let index = CompletionIndex::build(&keys, vec![Some(record(Some(90.0), 204800, 5))]);
    let rows = folder_rows(&folders, &devices, &LOCAL.to_string(), &index);
    assert_eq!(rows.len(), 1);
    assert_eq!(rows[0].label, "docs");
    assert_eq!(rows[0].path, "/data/docs");
    assert_eq!(rows[0].devices.len(), 1);
    assert_eq!(rows[0].devices[0].name, "laptop");
    match &rows[0].devices[0].status {
        FolderSyncStatus::OutOfSync { items, bytes } => {
            assert_eq!(*items, 5);
            assert_eq!(bytes, "200.0 KB");
        }
        FolderSyncStatus::UpToDate => panic!("expected out of sync"),
    }
}

#[test]
fn missing_completion_record_is_up_to_date() {
    let folders = vec![folder("docs", &[LOCAL, REMOTE])];
    let devices = vec![device(LOCAL, None), device(REMOTE, Some("laptop"))];
    let keys = vec![key(REMOTE, Some("docs"))];
    let index = CompletionIndex::build(&keys, vec![None]);
    assert!(index.entries.is_empty());
    let rows = folder_rows(&folders, &devices, &LOCAL.to_string(), &index);
    assert!(matches!(rows[0].devices[0].status, FolderSyncStatus::UpToDate));
}

#[test]
fn zero_outstanding_items_is_up_to_date() {
    assert!(matches!(
        folder_sync_status(Some(record(Some(50.0), 4096, 0))),
        FolderSyncStatus::UpToDate
    ));
    let no_count = CompletionRecord { completion: None, need_bytes: Some(10), need_items: None };
    assert!(matches!(folder_sync_status(Some(no_count)), FolderSyncStatus::UpToDate));
}

#[test]
fn orphan_device_is_named_unknown() {
    let folders = vec![Folder {
        id: "f".to_string(),
        label: Some("Photos".to_string()),
        path: None,
        devices: vec![LOCAL.to_string(), "ORPHAN0-CCCCCCC".to_string()],
    }];
    let devices = vec![device(LOCAL, None)];
    let index = CompletionIndex::build(&vec![], vec![]);
    let rows = folder_rows(&folders, &devices, &LOCAL.to_string(), &index);
    assert_eq!(rows[0].label, "Photos");
    assert_eq!(rows[0].path, "");
    assert_eq!(rows[0].devices[0].name, "Unknown");
    assert_eq!(rows[0].devices[0].device_id, "ORPHAN0-CCCCCCC");
}

#[test]
fn local_device_is_never_listed() {
    let folders = vec![folder("a", &[LOCAL, REMOTE, LOCAL]), folder("b", &[LOCAL])];
    let devices = vec![device(REMOTE, None), device(LOCAL, None)];
    let table = conns(vec![(LOCAL, true, false), (REMOTE, true, false)]);
    let index = CompletionIndex::build(&vec![], vec![]);
    let local = LOCAL.to_string();
    let rows = folder_rows(&folders, &devices, &local, &index);
    assert_eq!(rows[0].devices.len(), 1);
    assert_eq!(rows[0].devices[0].device_id, REMOTE);
    assert!(rows[1].devices.is_empty());
    let drows = device_rows(&devices, &local, &table, &index);
    assert_eq!(drows.len(), 1);
    assert_eq!(drows[0].device_id, REMOTE);
    let tasks = completion_tasks(&folders, &devices, &local, &table);
    assert!(tasks.iter().all(|t| t.device_id != LOCAL));
}

#[test]
fn task_set_order_and_keys() {
    let third = "THIRD00-DDDDDDD";
    let folders = vec![folder("a", &[REMOTE, LOCAL, third]), folder("b", &[third])];
    let devices = vec![device(LOCAL, None), device(REMOTE, None), device(third, None)];
    let table = conns(vec![(REMOTE, false, false), (third, true, false)]);
    let tasks = completion_tasks(&folders, &devices, &LOCAL.to_string(), &table);
    let got: Vec<(String, Option<String>)> =
        tasks.into_iter().map(|k| (k.device_id, k.folder_id)).collect();
    assert_eq!(
        got,
        vec![
            (REMOTE.to_string(), Some("a".to_string())),
            (third.to_string(), Some("a".to_string())),
            (third.to_string(), Some("b".to_string())),
            (third.to_string(), None),
        ]
    );
}

#[test]
fn no_connection_table_means_no_device_tasks() {
    let devices = vec![device(REMOTE, None)];
    let tasks = completion_tasks(&vec![], &devices, &LOCAL.to_string(), &None);
    assert!(tasks.is_empty());
}

#[test]
fn folder_and_device_keys_are_distinct() {
    let keys = vec![key(REMOTE, Some("docs")), key(REMOTE, None)];
    let index = CompletionIndex::build(
        &keys,
        vec![Some(record(Some(10.0), 1, 1)), Some(record(Some(20.0), 2, 2))],
    );
    let a = index.get(&key(REMOTE, Some("docs"))).unwrap();
    let b = index.get(&key(REMOTE, None)).unwrap();
    assert_eq!(a.need_items, Some(1));
    assert_eq!(b.need_items, Some(2));
    assert!(index.get(&key(REMOTE, Some("other"))).is_none());
}

#[test]
fn paused_overrides_connected() {
    let info = ConnectionInfo { connected: Some(true), paused: Some(true) };
    assert!(matches!(connection_status(Some(info), None), ConnectionStatus::Paused));
}

#[test]
fn connection_status_priority() {
    let disconnected = ConnectionInfo { connected: Some(false), paused: Some(false) };
    assert!(matches!(connection_status(Some(disconnected), None), ConnectionStatus::Disconnected));
    let unset = ConnectionInfo { connected: None, paused: None };
    assert!(matches!(connection_status(Some(unset), None), ConnectionStatus::Disconnected));
    assert!(matches!(connection_status(None, None), ConnectionStatus::Unknown));
    let connected = ConnectionInfo { connected: Some(true), paused: Some(false) };
    assert!(matches!(
        connection_status(Some(connected), None),
        ConnectionStatus::Connected { sync: SyncStatus::UpToDate }
    ));
}

#[test]
fn connected_device_syncing() {
    let devices = vec![device(LOCAL, None), device(REMOTE, Some("laptop"))];
    let table = conns(vec![(REMOTE, true, false)]);
    let keys = vec![key(REMOTE, None)];
    let index = CompletionIndex::build(&keys, vec![Some(record(Some(42.0), 1048576, 3))]);
    let rows = device_rows(&devices, &LOCAL.to_string(), &table, &index);
    assert_eq!(rows.len(), 1);
    assert_eq!(rows[0].name, "laptop");
    assert_eq!(rows[0].short_id, "REMOTE1");
    match &rows[0].status {
        ConnectionStatus::Connected { sync: SyncStatus::Syncing { percent, remaining } } => {
            assert_eq!(f64::from_bits(percent.bits), 42.0);
            assert_eq!(format!("{:.0}", f64::from_bits(percent.bits)), "42");
            assert_eq!(remaining, "1.00 MB");
        }
        _ => panic!("expected a syncing connected device"),
    }
}

#[test]
fn device_without_connection_record_is_unknown() {
    let devices = vec![device(REMOTE, None)];
    let index = CompletionIndex::build(&vec![], vec![]);
    let rows = device_rows(&devices, &LOCAL.to_string(), &None, &index);
    assert_eq!(rows[0].name, "Unknown");
    assert!(matches!(rows[0].status, ConnectionStatus::Unknown));
}

#[test]
fn below_full_is_exact() {
    let below = |x: f64| Percent { bits: x.to_bits() }.is_below_full();
    assert!(below(0.0));
    assert!(below(42.0));
    assert!(below(99.99999999999999));
    assert!(below(1e-300));
    assert!(below(5e-324));
    assert!(below(-0.0));
    assert!(below(-3.5));
    assert!(below(f64::NEG_INFINITY));
    assert!(!below(100.0));
    assert!(!below(100.00000000000001));
    assert!(!below(1e300));
    assert!(!below(f64::INFINITY));
    assert!(!below(f64::NAN));
}

#[test]
fn full_completion_is_up_to_date() {
    let info = ConnectionInfo { connected: Some(true), paused: Some(false) };
    let done = record(Some(100.0), 0, 0);
    assert!(matches!(
        connection_status(Some(info), Some(done)),
        ConnectionStatus::Connected { sync: SyncStatus::UpToDate }
    ));
    let absent = CompletionRecord { completion: None, need_bytes: Some(5), need_items: Some(1) };
    assert!(matches!(
        connection_status(Some(info), Some(absent)),
        ConnectionStatus::Connected { sync: SyncStatus::UpToDate }
    ));
}

#[test]
fn this_device_summary() {
    let status = SystemStatus {
        my_id: "ABCDEFGHIJK".to_string(),
        version: Some("v1.27.0".to_string()),
        os: Some("linux".to_string()),
        arch: Some("amd64".to_string()),
        uptime: Some(93784),
        listener_errors: Some(vec![None, Some("bind failed".to_string()), None]),
        discovery_errors: None,
    };
    let t = this_device(&status, &conns(vec![]));
    assert_eq!(t.download, "2.00 KB");
    assert_eq!(t.upload, "0 B");
    let l = t.listeners.unwrap();
    assert_eq!((l.active, l.total), (2, 3));
    assert!(t.discovery.is_none());
    assert_eq!(t.uptime.as_deref(), Some("1d 2h 3m"));
    assert_eq!(t.short_id, "ABCDEFG");
    let v = t.version.unwrap();
    assert_eq!((v.version.as_str(), v.os.as_str(), v.arch.as_str()), ("v1.27.0", "linux", "amd64"));
}

#[test]
fn this_device_without_connections() {
    let status = SystemStatus {
        my_id: "XYZ".to_string(),
        version: Some("v1".to_string()),
        os: None,
        arch: Some("arm64".to_string()),
        uptime: None,
        listener_errors: None,
        discovery_errors: Some(vec![]),
    };
    let t = this_device(&status, &None);
    assert_eq!(t.download, "0 B");
    assert_eq!(t.upload, "0 B");
    assert!(t.uptime.is_none());
    assert_eq!(t.short_id, "XYZ");
    assert!(t.version.is_none());
    let d = t.discovery.unwrap();
    assert_eq!((d.active, d.total), (0, 0));
}

#[test]
fn completion_paths() {
    assert_eq!(
        completion_endpoint(&key("DEV", Some("fold"))),
        "/rest/db/completion?device=DEV&folder=fold"
    );
    assert_eq!(completion_endpoint(&key("DEV", None)), "/rest/db/completion?device=DEV");
}

#[test]
fn base_urls() {
    assert_eq!(base_url(&None), "http://127.0.0.1:8384");
    assert_eq!(base_url(&Some("0.0.0.0".to_string())), "http://127.0.0.1:8384");
    assert_eq!(base_url(&Some("192.168.1.5".to_string())), "http://192.168.1.5:8384");
    assert_eq!(trim_trailing_slashes("http://h:8384//"), "http://h:8384");
    assert_eq!(trim_trailing_slashes("http://h:8384"), "http://h:8384");
}
