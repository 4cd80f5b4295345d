//! Properties of the presentation model and the formatters, proved once for
//! all inputs.
use vstd::prelude::*;
use crate::format::{unit_divisor, unit_index};
use crate::model::{
    connection_status_matches, device_tasks, folder_row_matches, folder_status_matches,
    folder_tasks, lookup, lookup_from, merged, need_items_of, remote_devices, remote_ids, CompletionRecord, ConnectionInfo,
    ConnectionStatus, Connections, Device, Folder, FolderSyncStatus,
};

verus! {

/// A positive byte count is shown in the smallest unit in which its scaled
/// value is below 1024, or in TB when no unit up to TB has that: every
/// smaller unit leaves it at 1024 or more, and the chosen unit holds at
/// least one of it.
pub proof fn law_smallest_unit(b: nat)
    requires
        b > 0,
    ensures
        unit_index(b) <= 4,
        unit_index(b) == 4 || b < 1024 * unit_divisor(unit_index(b)),
        b >= unit_divisor(unit_index(b)),
        forall|j: nat| j < unit_index(b) ==> b >= 1024 * #[trigger] unit_divisor(j),
{
}

/// A folder-device pair without a completion record is up to date; one
/// whose record has outstanding items is out of sync with that count.
pub proof fn law_folder_status(st: FolderSyncStatus, rec: Option<CompletionRecord>)
    requires
        folder_status_matches(st, rec),
    ensures
        rec is None ==> st is UpToDate,
        rec is Some && need_items_of(rec->0) > 0 ==> (st matches FolderSyncStatus::OutOfSync {
            items,
            ..
        } && items as int == need_items_of(rec->0)),
{
}

/// A paused connection shows as paused, never as connected, whatever its
/// connected flag says.
pub proof fn law_paused_overrides_connected(
    st: ConnectionStatus,
    c: ConnectionInfo,
    rec: Option<CompletionRecord>,
)
    requires
        connection_status_matches(st, Some(c), rec),
        c.paused == Some(true),
    ensures
        st is Paused,
{
}

proof fn lemma_remote_ids_exclude(ds: Seq<String>, local: Seq<char>)
    ensures
        forall|k: int|
            0 <= k < remote_ids(ds, local).len() ==> #[trigger] remote_ids(ds, local)[k] != local,
    decreases ds.len(),
{
    if ds.len() > 0 {
        lemma_remote_ids_exclude(ds.drop_last(), local);
        let prev = remote_ids(ds.drop_last(), local);
        assert forall|k: int| 0 <= k < remote_ids(ds, local).len() implies #[trigger] remote_ids(
            ds,
            local,
        )[k] != local by {
            if k < prev.len() {
                assert(remote_ids(ds, local)[k] == prev[k]);
            }
        }
    }
}

/// The local device appears in no folder's device rows.
pub proof fn law_folder_rows_exclude_local(
    row: crate::model::FolderRow,
    f: Folder,
    ds: Seq<Device>,
    local: Seq<char>,
    idx: Seq<((Seq<char>, Option<Seq<char>>), CompletionRecord)>,
)
    requires
        folder_row_matches(row, f, ds, local, idx),
    ensures
        forall|j: int| 0 <= j < row.devices@.len() ==> #[trigger] row.devices@[j].device_id@ != local,
{
    lemma_remote_ids_exclude(f.devices@, local);
    assert forall|j: int| 0 <= j < row.devices@.len() implies #[trigger] row.devices@[j].device_id@
        != local by {
        assert(crate::model::folder_device_matches(
            row.devices@[j],
            remote_ids(f.devices@, local)[j],
            f.id@,
            ds,
            idx,
        ));
    }
}

/// The local device is not among the remote devices.
pub proof fn law_remote_devices_exclude_local(ds: Seq<Device>, local: Seq<char>)
    ensures
        forall|k: int|
            0 <= k < remote_devices(ds, local).len() ==> #[trigger] remote_devices(ds, local)[k].device_id@
                != local,
    decreases ds.len(),
{
    if ds.len() > 0 {
        law_remote_devices_exclude_local(ds.drop_last(), local);
    }
}

/// The local device appears in no remote device row.
pub proof fn law_device_rows_exclude_local(
    rows: Seq<crate::model::DeviceRow>,
    ds: Seq<Device>,
    local: Seq<char>,
    conns: Option<Connections>,
    idx: Seq<((Seq<char>, Option<Seq<char>>), CompletionRecord)>,
)
    requires
        rows.len() == remote_devices(ds, local).len(),
        forall|j: int|
            0 <= j < rows.len() ==> #[trigger] crate::model::device_row_matches(
                rows[j],
                remote_devices(ds, local)[j],
                conns,
                idx,
            ),
    ensures
        forall|j: int| 0 <= j < rows.len() ==> #[trigger] rows[j].device_id@ != local,
{
    law_remote_devices_exclude_local(ds, local);
    assert forall|j: int| 0 <= j < rows.len() implies #[trigger] rows[j].device_id@ != local by {
        assert(crate::model::device_row_matches(rows[j], remote_devices(ds, local)[j], conns, idx));
    }
}

/// No completion query is made for the local device.
pub proof fn law_tasks_exclude_local(
    fs: Seq<Folder>,
    ds: Seq<Device>,
    local: Seq<char>,
    conns: Option<Connections>,
)
    ensures
        forall|k: int|
            0 <= k < folder_tasks(fs, local).len() ==> (#[trigger] folder_tasks(fs, local)[k]).0
                != local,
        forall|k: int|
            0 <= k < device_tasks(ds, local, conns).len() ==> (#[trigger] device_tasks(
                ds,
                local,
                conns,
            )[k]).0 != local,
    decreases fs.len() + ds.len(),
{
    if fs.len() > 0 {
        law_tasks_exclude_local(fs.drop_last(), ds, local, conns);
        lemma_remote_ids_exclude(fs.last().devices@, local);
        let a = folder_tasks(fs.drop_last(), local);
        let b = remote_ids(fs.last().devices@, local).map_values(
            |d: Seq<char>| (d, Some(fs.last().id@)),
        );
        assert forall|k: int| 0 <= k < folder_tasks(fs, local).len() implies (
        #[trigger] folder_tasks(fs, local)[k]).0 != local by {
            if k >= a.len() {
                assert(folder_tasks(fs, local)[k] == b[k - a.len()]);
            } else {
                assert(folder_tasks(fs, local)[k] == a[k]);
            }
        }
    }
    if ds.len() > 0 {
        law_tasks_exclude_local(seq![], ds.drop_last(), local, conns);
        let prev = device_tasks(ds.drop_last(), local, conns);
        assert forall|k: int| 0 <= k < device_tasks(ds, local, conns).len() implies (
        #[trigger] device_tasks(ds, local, conns)[k]).0 != local by {
            if k < prev.len() {
                assert(device_tasks(ds, local, conns)[k] == prev[k]);
            }
        }
    }
}


proof fn lemma_lookup_push(
    s: Seq<((Seq<char>, Option<Seq<char>>), CompletionRecord)>,
    x: ((Seq<char>, Option<Seq<char>>), CompletionRecord),
    k: (Seq<char>, Option<Seq<char>>),
    i: int,
)
    requires
        0 <= i <= s.len(),
    ensures
        lookup_from(s.push(x), k, i) == match lookup_from(s, k, i) {
            Some(r) => Some(r),
            None => if x.0 == k {
                Some(x.1)
            } else {
                None
            },
        },
    decreases s.len() - i,
{
    if i < s.len() {
        assert(s.push(x)[i] == s[i]);
        lemma_lookup_push(s, x, k, i + 1);
    } else {
        assert(s.push(x)[i] == x);
        assert(lookup_from(s.push(x), k, i + 1) is None);
        assert(lookup_from(s, k, i) is None);
    }
}

/// The merged index has an entry for a key exactly when some query for that
/// key was answered, and the record found is the answer of such a query: a
/// failed query leaves no entry, and a miss is no error.
pub proof fn law_index_holds_answers(
    keys: Seq<(Seq<char>, Option<Seq<char>>)>,
    results: Seq<Option<CompletionRecord>>,
    n: int,
    key: (Seq<char>, Option<Seq<char>>),
)
    requires
        0 <= n <= keys.len(),
        keys.len() == results.len(),
    ensures
        lookup(merged(keys, results, n), key) is Some <==> exists|i: int|
            0 <= i < n && keys[i] == key && #[trigger] results[i] is Some,
        lookup(merged(keys, results, n), key) matches Some(r) ==> exists|i: int|
            0 <= i < n && keys[i] == key && #[trigger] results[i] == Some(r),
    decreases n,
{
    if n > 0 {
        law_index_holds_answers(keys, results, n - 1, key);
        let prev = merged(keys, results, n - 1);
        match results[n - 1] {
            Some(rec) => {
                lemma_lookup_push(prev, (keys[n - 1], rec), key, 0);
            },
            None => {},
        }
        if lookup(merged(keys, results, n), key) is Some {
            if lookup(prev, key) is None {
                assert(keys[n - 1] == key && results[n - 1] is Some);
            }
        }
        if exists|i: int| 0 <= i < n && keys[i] == key && #[trigger] results[i] is Some {
            let i = choose|i: int| 0 <= i < n && keys[i] == key && #[trigger] results[i] is Some;
            if i < n - 1 {
                assert(lookup(prev, key) is Some);
            }
        }
    }
}

} // verus!
