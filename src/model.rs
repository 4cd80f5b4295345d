//! The daemon's resources as the dashboard reads them, the set of completion
//! queries that they call for, and the index that merges the answers.
use vstd::prelude::*;
use vstd::string::*;
use vstd::arithmetic::power2::{pow2, lemma_pow2_unfold, lemma_pow2_strictly_increases, lemma2_to64, lemma2_to64_rest};
use crate::format::{bytes_text, format_bytes, format_uptime, short_form, short_id, uptime_text};

verus! {

/// A configured device: its identity and optional display name.
pub struct Device {
    pub device_id: String,
    pub name: Option<String>,
}

/// A configured folder and the identities of the devices it is shared with,
/// in the order of its share list.
pub struct Folder {
    pub id: String,
    pub label: Option<String>,
    pub path: Option<String>,
    pub devices: Vec<String>,
}

/// The live state of one device's connection.
#[derive(Clone, Copy)]
pub struct ConnectionInfo {
    pub connected: Option<bool>,
    pub paused: Option<bool>,
}

pub struct ConnectionEntry {
    pub device_id: String,
    pub info: ConnectionInfo,
}

/// The connection table: lifetime byte counters and, per device identity,
/// the state of its connection.
pub struct Connections {
    pub in_bytes_total: Option<i64>,
    pub out_bytes_total: Option<i64>,
    pub entries: Option<Vec<ConnectionEntry>>,
}

/// A completion percentage, held as the bit pattern of the IEEE 754
/// binary64 number that the daemon reported.
#[derive(Clone, Copy, PartialEq, Eq, Structural)]
pub struct Percent {
    pub bits: u64,
}

/// How far a device is from having a folder's (or all its folders') data.
#[derive(Clone, Copy)]
pub struct CompletionRecord {
    pub completion: Option<Percent>,
    pub need_bytes: Option<i64>,
    pub need_items: Option<i32>,
}

/// The key of a completion query: a device, and the folder for a
/// folder-scoped query or none for the device's overall completion.
pub struct CompletionKey {
    pub device_id: String,
    pub folder_id: Option<String>,
}

pub open spec fn opt_view(o: Option<String>) -> Option<Seq<char>> {
    match o {
        Some(s) => Some(s@),
        None => None,
    }
}

impl View for CompletionKey {
    type V = (Seq<char>, Option<Seq<char>>);

    open spec fn view(&self) -> (Seq<char>, Option<Seq<char>>) {
        (self.device_id@, opt_view(self.folder_id))
    }
}

/// The first entry of the table for device `id`, from position `i` on.
pub open spec fn find_connection_from(es: Seq<ConnectionEntry>, id: Seq<char>, i: int) -> Option<
    ConnectionInfo,
>
    decreases es.len() - i,
{
    if i < 0 || i >= es.len() {
        None
    } else if es[i].device_id@ == id {
        Some(es[i].info)
    } else {
        find_connection_from(es, id, i + 1)
    }
}

/// The connection record of device `id`, if the table was fetched and has one.
pub open spec fn connection_of(conns: Option<Connections>, id: Seq<char>) -> Option<ConnectionInfo> {
    match conns {
        Some(c) => match c.entries {
            Some(es) => find_connection_from(es@, id, 0),
            None => None,
        },
        None => None,
    }
}

pub open spec fn is_connected(c: ConnectionInfo) -> bool {
    c.connected == Some(true)
}

pub open spec fn is_paused(c: ConnectionInfo) -> bool {
    c.paused == Some(true)
}

/// The identities of a share list other than the local one, in order.
pub open spec fn remote_ids(ds: Seq<String>, local: Seq<char>) -> Seq<Seq<char>>
    decreases ds.len(),
{
    if ds.len() == 0 {
        seq![]
    } else if ds.last()@ == local {
        remote_ids(ds.drop_last(), local)
    } else {
        remote_ids(ds.drop_last(), local).push(ds.last()@)
    }
}

/// One folder-scoped query for each remote device of each folder, folders
/// in order and devices in share-list order.
pub open spec fn folder_tasks(fs: Seq<Folder>, local: Seq<char>) -> Seq<
    (Seq<char>, Option<Seq<char>>),
>
    decreases fs.len(),
{
    if fs.len() == 0 {
        seq![]
    } else {
        folder_tasks(fs.drop_last(), local) + remote_ids(fs.last().devices@, local).map_values(
            |d: Seq<char>| (d, Some(fs.last().id@)),
        )
    }
}

/// One overall query for each remote device that the table shows connected,
/// in device-list order.
pub open spec fn device_tasks(ds: Seq<Device>, local: Seq<char>, conns: Option<Connections>) -> Seq<
    (Seq<char>, Option<Seq<char>>),
>
    decreases ds.len(),
{
    if ds.len() == 0 {
        seq![]
    } else {
        let id = ds.last().device_id@;
        let rest = device_tasks(ds.drop_last(), local, conns);
        if id != local && connection_of(conns, id) is Some && is_connected(
            connection_of(conns, id)->0,
        ) {
            rest.push((id, None))
        } else {
            rest
        }
    }
}

/// Looks up the connection record of a device.
pub fn find_connection(conns: &Option<Connections>, id: &String) -> (r: Option<ConnectionInfo>)
    ensures
        r == connection_of(*conns, id@),
{
    match conns {
        Some(c) => match &c.entries {
            Some(es) => {
                let mut i: usize = 0;
                while i < es.len()
                    invariant
                        i <= es@.len(),
                        connection_of(*conns, id@) == find_connection_from(es@, id@, 0),
                        find_connection_from(es@, id@, i as int) == find_connection_from(
                            es@,
                            id@,
                            0,
                        ),
                    decreases es.len() - i,
                {
                    if es[i].device_id == *id {
                        let info = es[i].info;
                        assert(find_connection_from(es@, id@, i as int) == Some(info));
                        return Some(info);
                    }
                    i = i + 1;
                }
                None
            },
            None => None,
        },
        None => None,
    }
}

/// The completion queries that the dashboard needs: first the folder-scoped
/// ones, then the overall ones of connected remote devices. The local
/// device is never queried.
pub fn completion_tasks(
    folders: &Vec<Folder>,
    devices: &Vec<Device>,
    local_id: &String,
    conns: &Option<Connections>,
) -> (r: Vec<CompletionKey>)
    ensures
        r@.map_values(|k: CompletionKey| k@) == folder_tasks(folders@, local_id@) + device_tasks(
            devices@,
            local_id@,
            *conns,
        ),
{
    let mut out: Vec<CompletionKey> = Vec::new();
    let mut i: usize = 0;
    while i < folders.len()
        invariant
            i <= folders@.len(),
            out@.map_values(|k: CompletionKey| k@) == folder_tasks(
                folders@.subrange(0, i as int),
                local_id@,
            ),
        decreases folders.len() - i,
    {
        let folder = &folders[i];
        let ghost before = out@.map_values(|k: CompletionKey| k@);
        let mut j: usize = 0;
        while j < folder.devices.len()
            invariant
                j <= folder.devices@.len(),
                out@.map_values(|k: CompletionKey| k@) == before + remote_ids(
                    folder.devices@.subrange(0, j as int),
                    local_id@,
                ).map_values(|d: Seq<char>| (d, Some(folder.id@))),
            decreases folder.devices.len() - j,
        {
            let d = &folder.devices[j];
            proof {
                assert(folder.devices@.subrange(0, j + 1).drop_last() =~= folder.devices@.subrange(
                    0,
                    j as int,
                ));
            }
            let ghost prev = remote_ids(folder.devices@.subrange(0, j as int), local_id@);
            let ghost old_out = out@;
            if *d != *local_id {
                let key = CompletionKey { device_id: d.clone(), folder_id: Some(folder.id.clone()) };
                out.push(key);
                proof {
                    assert(remote_ids(folder.devices@.subrange(0, j + 1), local_id@) == prev.push(
                        d@,
                    ));
                    assert(out@ =~= old_out.push(key));
                    assert(key@ == (d@, Some(folder.id@)));
                    assert(old_out.push(key).map_values(|k: CompletionKey| k@) =~= old_out.map_values(
                        |k: CompletionKey| k@,
                    ).push(key@));
                    assert(prev.push(d@).map_values(|d: Seq<char>| (d, Some(folder.id@))) =~= prev.map_values(
                        |d: Seq<char>| (d, Some(folder.id@)),
                    ).push((d@, Some(folder.id@))));
                }
            } else {
                assert(remote_ids(folder.devices@.subrange(0, j + 1), local_id@) == prev);
            }
            assert(out@.map_values(|k: CompletionKey| k@) =~= before + remote_ids(
                folder.devices@.subrange(0, j + 1),
                local_id@,
            ).map_values(|d: Seq<char>| (d, Some(folder.id@))));
            j = j + 1;
        }
        proof {
            assert(folder.devices@.subrange(0, j as int) =~= folder.devices@);
            assert(folders@.subrange(0, i + 1).drop_last() =~= folders@.subrange(0, i as int));
        }
        i = i + 1;
    }
    assert(folders@.subrange(0, i as int) =~= folders@);
    let ghost ftasks = out@.map_values(|k: CompletionKey| k@);
    let mut i: usize = 0;
    while i < devices.len()
        invariant
            i <= devices@.len(),
            ftasks == folder_tasks(folders@, local_id@),
            out@.map_values(|k: CompletionKey| k@) == ftasks + device_tasks(
                devices@.subrange(0, i as int),
                local_id@,
                *conns,
            ),
        decreases devices.len() - i,
    {
        let device = &devices[i];
        proof {
            assert(devices@.subrange(0, i + 1).drop_last() =~= devices@.subrange(0, i as int));
        }
        let ghost old_out = out@;
        let ghost prev = device_tasks(devices@.subrange(0, i as int), local_id@, *conns);
        if device.device_id != *local_id {
            match find_connection(conns, &device.device_id) {
                Some(c) => {
                    if c.connected == Some(true) {
                        let key = CompletionKey { device_id: device.device_id.clone(), folder_id: None };
                        out.push(key);
                        proof {
                            assert(out@ =~= old_out.push(key));
                            assert(old_out.push(key).map_values(|k: CompletionKey| k@) =~= old_out.map_values(
                                |k: CompletionKey| k@,
                            ).push(key@));
                        }
                    }
                },
                None => {},
            }
        }
        assert(out@.map_values(|k: CompletionKey| k@) =~= ftasks + device_tasks(
            devices@.subrange(0, i + 1),
            local_id@,
            *conns,
        ));
        i = i + 1;
    }
    assert(devices@.subrange(0, i as int) =~= devices@);
    out
}


pub open spec fn keys_view(ks: Seq<CompletionKey>) -> Seq<(Seq<char>, Option<Seq<char>>)> {
    ks.map_values(|k: CompletionKey| k@)
}

/// One answered completion query.
pub struct IndexEntry {
    pub key: CompletionKey,
    pub record: CompletionRecord,
}

/// The answers to the completion queries, keyed by query. A query that
/// failed has no entry: its key is simply missing.
pub struct CompletionIndex {
    pub entries: Vec<IndexEntry>,
}

impl View for CompletionIndex {
    type V = Seq<((Seq<char>, Option<Seq<char>>), CompletionRecord)>;

    open spec fn view(&self) -> Self::V {
        self.entries@.map_values(|e: IndexEntry| (e.key@, e.record))
    }
}

/// The index made of the first `n` queries and their outcomes (`None` for
/// a failed query), in query order.
pub open spec fn merged(
    keys: Seq<(Seq<char>, Option<Seq<char>>)>,
    results: Seq<Option<CompletionRecord>>,
    n: int,
) -> Seq<((Seq<char>, Option<Seq<char>>), CompletionRecord)>
    decreases n,
{
    if n <= 0 {
        seq![]
    } else {
        let rest = merged(keys, results, n - 1);
        match results[n - 1] {
            Some(rec) => rest.push((keys[n - 1], rec)),
            None => rest,
        }
    }
}

/// The record of the first entry with key `key`, from position `i` on.
pub open spec fn lookup_from(
    es: Seq<((Seq<char>, Option<Seq<char>>), CompletionRecord)>,
    key: (Seq<char>, Option<Seq<char>>),
    i: int,
) -> Option<CompletionRecord>
    decreases es.len() - i,
{
    if i < 0 || i >= es.len() {
        None
    } else if es[i].0 == key {
        Some(es[i].1)
    } else {
        lookup_from(es, key, i + 1)
    }
}

pub open spec fn lookup(
    es: Seq<((Seq<char>, Option<Seq<char>>), CompletionRecord)>,
    key: (Seq<char>, Option<Seq<char>>),
) -> Option<CompletionRecord> {
    lookup_from(es, key, 0)
}

fn same_key(a: &CompletionKey, b: &CompletionKey) -> (r: bool)
    ensures
        r == (a@ == b@),
{
    if a.device_id != b.device_id {
        return false;
    }
    match (&a.folder_id, &b.folder_id) {
        (Some(x), Some(y)) => *x == *y,
        (None, None) => true,
        _ => false,
    }
}

fn copy_key(k: &CompletionKey) -> (r: CompletionKey)
    ensures
        r@ == k@,
{
    let folder_id = match &k.folder_id {
        Some(f) => Some(f.clone()),
        None => None,
    };
    CompletionKey { device_id: k.device_id.clone(), folder_id }
}

impl CompletionIndex {
    /// Merges the outcomes of the completion queries, `results[i]` being the
    /// outcome of `keys[i]`: each answered query gives one entry, in query
    /// order; a failed one gives none.
    pub fn build(keys: &Vec<CompletionKey>, results: Vec<Option<CompletionRecord>>) -> (r:
        CompletionIndex)
        requires
            keys@.len() == results@.len(),
        ensures
            r@ == merged(keys_view(keys@), results@, keys@.len() as int),
    {
        let mut entries: Vec<IndexEntry> = Vec::new();
        let mut i: usize = 0;
        while i < keys.len()
            invariant
                i <= keys@.len(),
                keys@.len() == results@.len(),
                entries@.map_values(|e: IndexEntry| (e.key@, e.record)) == merged(
                    keys_view(keys@),
                    results@,
                    i as int,
                ),
            decreases keys.len() - i,
        {
            let ghost old_entries = entries@;
            match results[i] {
                Some(rec) => {
                    let e = IndexEntry { key: copy_key(&keys[i]), record: rec };
                    entries.push(e);
                    assert(entries@ =~= old_entries.push(e));
                    assert(old_entries.push(e).map_values(|e: IndexEntry| (e.key@, e.record))
                        =~= old_entries.map_values(|e: IndexEntry| (e.key@, e.record)).push(
                        (e.key@, e.record),
                    ));
                },
                None => {},
            }
            i = i + 1;
        }
        CompletionIndex { entries }
    }

    /// The record of a query, if it was answered.
    pub fn get(&self, key: &CompletionKey) -> (r: Option<CompletionRecord>)
        ensures
            r == lookup(self@, key@),
    {
        let mut i: usize = 0;
        while i < self.entries.len()
            invariant
                i <= self.entries@.len(),
                lookup_from(self@, key@, i as int) == lookup(self@, key@),
            decreases self.entries.len() - i,
        {
            if same_key(&self.entries[i].key, key) {
                return Some(self.entries[i].record);
            }
            i = i + 1;
        }
        None
    }
}

/// The first device of the list with identity `id`, from position `i` on.
pub open spec fn find_device_from(ds: Seq<Device>, id: Seq<char>, i: int) -> Option<Device>
    decreases ds.len() - i,
{
    if i < 0 || i >= ds.len() {
        None
    } else if ds[i].device_id@ == id {
        Some(ds[i])
    } else {
        find_device_from(ds, id, i + 1)
    }
}

/// A device's name, or "Unknown" where it has none.
pub open spec fn name_or_unknown(name: Option<String>) -> Seq<char> {
    match name {
        Some(n) => n@,
        None => "Unknown"@,
    }
}

/// The display name of identity `id`: that of its device, or "Unknown"
/// when the device list does not hold it.
pub open spec fn display_name(ds: Seq<Device>, id: Seq<char>) -> Seq<char> {
    match find_device_from(ds, id, 0) {
        Some(d) => name_or_unknown(d.name),
        None => "Unknown"@,
    }
}

fn name_text(name: &Option<String>) -> (r: String)
    ensures
        r@ == name_or_unknown(*name),
{
    match name {
        Some(n) => n.clone(),
        None => String::from_str("Unknown"),
    }
}

/// Looks up the display name of a device identity.
pub fn device_name(devices: &Vec<Device>, id: &String) -> (r: String)
    ensures
        r@ == display_name(devices@, id@),
{
    let mut i: usize = 0;
    while i < devices.len()
        invariant
            i <= devices@.len(),
            find_device_from(devices@, id@, i as int) == find_device_from(devices@, id@, 0),
        decreases devices.len() - i,
    {
        if devices[i].device_id == *id {
            return name_text(&devices[i].name);
        }
        i = i + 1;
    }
    String::from_str("Unknown")
}

/// The sync state of one device in one folder.
pub enum FolderSyncStatus {
    UpToDate,
    OutOfSync { items: i32, bytes: String },
}

pub open spec fn need_items_of(r: CompletionRecord) -> int {
    match r.need_items {
        Some(n) => n as int,
        None => 0,
    }
}

pub open spec fn need_bytes_of(r: CompletionRecord) -> int {
    match r.need_bytes {
        Some(n) => n as int,
        None => 0,
    }
}

/// Out of sync exactly when the record says items are outstanding, with
/// that item count and the outstanding bytes as text; up to date otherwise,
/// also when there is no record.
pub open spec fn folder_status_matches(st: FolderSyncStatus, rec: Option<CompletionRecord>) -> bool {
    if rec is Some && need_items_of(rec->0) > 0 {
        match st {
            FolderSyncStatus::OutOfSync { items, bytes } => items as int == need_items_of(rec->0)
                && bytes@ == bytes_text(need_bytes_of(rec->0)),
            FolderSyncStatus::UpToDate => false,
        }
    } else {
        st is UpToDate
    }
}

/// Classifies a folder-device pair from its completion record.
pub fn folder_sync_status(rec: Option<CompletionRecord>) -> (r: FolderSyncStatus)
    ensures
        folder_status_matches(r, rec),
{
    match rec {
        Some(c) => {
            let items: i32 = match c.need_items {
                Some(n) => n,
                None => 0,
            };
            if items > 0 {
                let bytes: i64 = match c.need_bytes {
                    Some(b) => b,
                    None => 0,
                };
                FolderSyncStatus::OutOfSync { items, bytes: format_bytes(bytes) }
            } else {
                FolderSyncStatus::UpToDate
            }
        },
        None => FolderSyncStatus::UpToDate,
    }
}

/// One remote device of a folder, as the dashboard shows it.
pub struct FolderDeviceRow {
    pub device_id: String,
    pub name: String,
    pub status: FolderSyncStatus,
}

/// One folder, as the dashboard shows it.
pub struct FolderRow {
    pub label: String,
    pub path: String,
    pub devices: Vec<FolderDeviceRow>,
}

pub open spec fn folder_device_matches(
    row: FolderDeviceRow,
    id: Seq<char>,
    folder_id: Seq<char>,
    ds: Seq<Device>,
    idx: Seq<((Seq<char>, Option<Seq<char>>), CompletionRecord)>,
) -> bool {
    &&& row.device_id@ == id
    &&& row.name@ == display_name(ds, id)
    &&& folder_status_matches(row.status, lookup(idx, (id, Some(folder_id))))
}

/// A folder's row: its label (its identity when it has none), its path
/// (empty when it has none), and one entry per remote device of its share
/// list, in order.
pub open spec fn folder_row_matches(
    row: FolderRow,
    f: Folder,
    ds: Seq<Device>,
    local: Seq<char>,
    idx: Seq<((Seq<char>, Option<Seq<char>>), CompletionRecord)>,
) -> bool {
    let ids = remote_ids(f.devices@, local);
    &&& row.label@ == (match f.label {
        Some(l) => l@,
        None => f.id@,
    })
    &&& row.path@ == (match f.path {
        Some(p) => p@,
        None => Seq::<char>::empty(),
    })
    &&& row.devices@.len() == ids.len()
    &&& forall|j: int|
        0 <= j < ids.len() ==> #[trigger] folder_device_matches(
            row.devices@[j],
            ids[j],
            f.id@,
            ds,
            idx,
        )
}

/// Builds the row of one folder.
pub fn folder_row(
    folder: &Folder,
    devices: &Vec<Device>,
    local_id: &String,
    index: &CompletionIndex,
) -> (r: FolderRow)
    ensures
        folder_row_matches(r, *folder, devices@, local_id@, index@),
{
    let mut rows: Vec<FolderDeviceRow> = Vec::new();
    let mut j: usize = 0;
    while j < folder.devices.len()
        invariant
            j <= folder.devices@.len(),
            rows@.len() == remote_ids(folder.devices@.subrange(0, j as int), local_id@).len(),
            forall|k: int|
                0 <= k < rows@.len() ==> #[trigger] folder_device_matches(
                    rows@[k],
                    remote_ids(folder.devices@.subrange(0, j as int), local_id@)[k],
                    folder.id@,
                    devices@,
                    index@,
                ),
        decreases folder.devices.len() - j,
    {
        let d = &folder.devices[j];
        let ghost prev = remote_ids(folder.devices@.subrange(0, j as int), local_id@);
        proof {
            assert(folder.devices@.subrange(0, j + 1).drop_last() =~= folder.devices@.subrange(
                0,
                j as int,
            ));
        }
        if *d != *local_id {
            let key = CompletionKey { device_id: d.clone(), folder_id: Some(folder.id.clone()) };
            let status = folder_sync_status(index.get(&key));
            let row = FolderDeviceRow { device_id: d.clone(), name: device_name(devices, d), status };
            let ghost old_rows = rows@;
            rows.push(row);
            proof {
                let next = remote_ids(folder.devices@.subrange(0, j + 1), local_id@);
                assert(next == prev.push(d@));
                assert forall|k: int| 0 <= k < rows@.len() implies #[trigger] folder_device_matches(
                    rows@[k],
                    next[k],
                    folder.id@,
                    devices@,
                    index@,
                ) by {
                    if k < prev.len() {
                        assert(rows@[k] == old_rows[k]);
                    }
                }
            }
        }
        j = j + 1;
    }
    proof {
        assert(folder.devices@.subrange(0, j as int) =~= folder.devices@);
    }
    let label = match &folder.label {
        Some(l) => l.clone(),
        None => folder.id.clone(),
    };
    let path = match &folder.path {
        Some(p) => p.clone(),
        None => String::new(),
    };
    FolderRow { label, path, devices: rows }
}

/// Builds the rows of all folders, in the order the folders were fetched.
pub fn folder_rows(
    folders: &Vec<Folder>,
    devices: &Vec<Device>,
    local_id: &String,
    index: &CompletionIndex,
) -> (r: Vec<FolderRow>)
    ensures
        r@.len() == folders@.len(),
        forall|i: int|
            0 <= i < folders@.len() ==> #[trigger] folder_row_matches(
                r@[i],
                folders@[i],
                devices@,
                local_id@,
                index@,
            ),
{
    let mut out: Vec<FolderRow> = Vec::new();
    let mut i: usize = 0;
    while i < folders.len()
        invariant
            i <= folders@.len(),
            out@.len() == i,
            forall|k: int|
                0 <= k < i ==> #[trigger] folder_row_matches(
                    out@[k],
                    folders@[k],
                    devices@,
                    local_id@,
                    index@,
                ),
        decreases folders.len() - i,
    {
        let row = folder_row(&folders[i], devices, local_id, index);
        out.push(row);
        i = i + 1;
    }
    out
}


pub open spec fn percent_negative(p: Percent) -> bool {
    p.bits >= 0x8000_0000_0000_0000
}

pub open spec fn percent_exponent(p: Percent) -> nat {
    ((p.bits / 0x10_0000_0000_0000) % 2048) as nat
}

pub open spec fn percent_fraction(p: Percent) -> nat {
    (p.bits % 0x10_0000_0000_0000) as nat
}

/// Whether the number is below 100. With exponent field `e` and fraction
/// `f`, a finite number has magnitude `m * 2^(x - 1075)` where `m` is `f`
/// (plus `2^52` unless `e` is 0) and `x` is `e` (1 when `e` is 0). Negative
/// numbers, negative zero and negative infinity are below 100; NaN and
/// positive infinity are not.
pub open spec fn below_full(p: Percent) -> bool {
    let e = percent_exponent(p);
    let f = percent_fraction(p);
    if e == 2047 {
        f == 0 && percent_negative(p)
    } else if percent_negative(p) {
        true
    } else {
        let m = if e == 0 { f } else { f + pow2(52) };
        let x = if e == 0 { 1 } else { e };
        if x >= 1075 {
            m * pow2((x - 1075) as nat) < 100
        } else {
            m < 100 * pow2((1075 - x) as nat)
        }
    }
}

impl Percent {
    /// Whether the percentage is below 100, compared exactly.
    pub fn is_below_full(&self) -> (r: bool)
        ensures
            r == below_full(*self),
    {
        let negative = self.bits >= 0x8000_0000_0000_0000;
        let e: u64 = (self.bits / 0x10_0000_0000_0000) % 2048;
        let f: u64 = self.bits % 0x10_0000_0000_0000;
        if e == 2047 {
            return f == 0 && negative;
        }
        if negative {
            return true;
        }
        proof {
            lemma2_to64();
            lemma2_to64_rest();
        }
        let m: u64 = if e == 0 {
            f
        } else {
            f + 0x10_0000_0000_0000
        };
        let x: u64 = if e == 0 {
            1
        } else {
            e
        };
        if x >= 1075 {
            proof {
                let k = (x - 1075) as nat;
                assert(pow2(k) > 0) by {
                    vstd::arithmetic::power2::lemma_pow2_pos(k);
                }
                assert(m >= 100);
                assert(m * pow2(k) >= m) by (nonlinear_arith)
                    requires
                        pow2(k) > 0,
                ;
            }
            return false;
        }
        let shift: u64 = 1075 - x;
        if shift >= 60 {
            proof {
                if shift > 60 {
                    lemma_pow2_strictly_increases(60, shift as nat);
                }
                assert(100 * pow2(shift as nat) > m) by (nonlinear_arith)
                    requires
                        pow2(shift as nat) >= pow2(60),
                        pow2(60) == 0x1000000000000000,
                        m < 0x20_0000_0000_0000,
                ;
            }
            return true;
        }
        let mut p2: u128 = 1;
        let mut k: u64 = 0;
        while k < shift
            invariant
                k <= shift,
                shift < 60,
                p2 == pow2(k as nat),
                pow2(60) == 0x1000000000000000,
            decreases shift - k,
        {
            proof {
                lemma_pow2_strictly_increases(k as nat, 60);
                lemma_pow2_unfold((k + 1) as nat);
            }
            p2 = p2 * 2;
            k = k + 1;
        }
        (m as u128) < 100 * p2
    }
}

/// How far a connected device is from having all its data.
pub enum SyncStatus {
    UpToDate,
    Syncing { percent: Percent, remaining: String },
}

/// The state of a remote device's connection, in priority order: paused,
/// connected, disconnected, and unknown when there is no record of it.
pub enum ConnectionStatus {
    Paused,
    Connected { sync: SyncStatus },
    Disconnected,
    Unknown,
}

/// Syncing exactly when the record reports a completion below 100, with
/// that percentage and the outstanding bytes as text; up to date otherwise,
/// also when there is no record or it reports no completion.
pub open spec fn sync_matches(st: SyncStatus, rec: Option<CompletionRecord>) -> bool {
    if rec is Some && rec->0.completion is Some && below_full(rec->0.completion->0) {
        match st {
            SyncStatus::Syncing { percent, remaining } => percent == rec->0.completion->0
                && remaining@ == bytes_text(need_bytes_of(rec->0)),
            SyncStatus::UpToDate => false,
        }
    } else {
        st is UpToDate
    }
}

pub open spec fn connection_status_matches(
    st: ConnectionStatus,
    conn: Option<ConnectionInfo>,
    rec: Option<CompletionRecord>,
) -> bool {
    match conn {
        None => st is Unknown,
        Some(c) => if is_paused(c) {
            st is Paused
        } else if is_connected(c) {
            match st {
                ConnectionStatus::Connected { sync } => sync_matches(sync, rec),
                _ => false,
            }
        } else {
            st is Disconnected
        },
    }
}

/// Derives a connected device's sync status from its overall record.
pub fn sync_status(rec: Option<CompletionRecord>) -> (r: SyncStatus)
    ensures
        sync_matches(r, rec),
{
    match rec {
        Some(c) => match c.completion {
            Some(p) => {
                if p.is_below_full() {
                    let bytes: i64 = match c.need_bytes {
                        Some(b) => b,
                        None => 0,
                    };
                    SyncStatus::Syncing { percent: p, remaining: format_bytes(bytes) }
                } else {
                    SyncStatus::UpToDate
                }
            },
            None => SyncStatus::UpToDate,
        },
        None => SyncStatus::UpToDate,
    }
}

/// Derives a device's connection status from its connection record and its
/// overall completion record.
pub fn connection_status(conn: Option<ConnectionInfo>, rec: Option<CompletionRecord>) -> (r:
    ConnectionStatus)
    ensures
        connection_status_matches(r, conn, rec),
{
    match conn {
        None => ConnectionStatus::Unknown,
        Some(c) => {
            if c.paused == Some(true) {
                ConnectionStatus::Paused
            } else if c.connected == Some(true) {
                ConnectionStatus::Connected { sync: sync_status(rec) }
            } else {
                ConnectionStatus::Disconnected
            }
        },
    }
}

/// The devices of the list other than the local one, in order.
pub open spec fn remote_devices(ds: Seq<Device>, local: Seq<char>) -> Seq<Device>
    decreases ds.len(),
{
    if ds.len() == 0 {
        seq![]
    } else if ds.last().device_id@ == local {
        remote_devices(ds.drop_last(), local)
    } else {
        remote_devices(ds.drop_last(), local).push(ds.last())
    }
}

/// One remote device, as the dashboard shows it.
pub struct DeviceRow {
    pub device_id: String,
    pub name: String,
    pub short_id: String,
    pub status: ConnectionStatus,
}

pub open spec fn device_row_matches(
    row: DeviceRow,
    d: Device,
    conns: Option<Connections>,
    idx: Seq<((Seq<char>, Option<Seq<char>>), CompletionRecord)>,
) -> bool {
    &&& row.device_id@ == d.device_id@
    &&& row.name@ == name_or_unknown(d.name)
    &&& row.short_id@ == short_form(d.device_id@)
    &&& connection_status_matches(
        row.status,
        connection_of(conns, d.device_id@),
        lookup(idx, (d.device_id@, None)),
    )
}

/// Builds one row per remote device, in device-list order.
pub fn device_rows(
    devices: &Vec<Device>,
    local_id: &String,
    conns: &Option<Connections>,
    index: &CompletionIndex,
) -> (r: Vec<DeviceRow>)
    ensures
        r@.len() == remote_devices(devices@, local_id@).len(),
        forall|j: int|
            0 <= j < r@.len() ==> #[trigger] device_row_matches(
                r@[j],
                remote_devices(devices@, local_id@)[j],
                *conns,
                index@,
            ),
{
    let mut rows: Vec<DeviceRow> = Vec::new();
    let mut i: usize = 0;
    while i < devices.len()
        invariant
            i <= devices@.len(),
            rows@.len() == remote_devices(devices@.subrange(0, i as int), local_id@).len(),
            forall|k: int|
                0 <= k < rows@.len() ==> #[trigger] device_row_matches(
                    rows@[k],
                    remote_devices(devices@.subrange(0, i as int), local_id@)[k],
                    *conns,
                    index@,
                ),
        decreases devices.len() - i,
    {
        let d = &devices[i];
        let ghost prev = remote_devices(devices@.subrange(0, i as int), local_id@);
        proof {
            assert(devices@.subrange(0, i + 1).drop_last() =~= devices@.subrange(0, i as int));
        }
        if d.device_id != *local_id {
            let key = CompletionKey { device_id: d.device_id.clone(), folder_id: None };
            let status = connection_status(find_connection(conns, &d.device_id), index.get(&key));
            let row = DeviceRow {
                device_id: d.device_id.clone(),
                name: name_text(&d.name),
                short_id: short_id(d.device_id.as_str()),
                status,
            };
            let ghost old_rows = rows@;
            rows.push(row);
            proof {
                let next = remote_devices(devices@.subrange(0, i + 1), local_id@);
                assert(next == prev.push(*d));
                assert forall|k: int| 0 <= k < rows@.len() implies #[trigger] device_row_matches(
                    rows@[k],
                    next[k],
                    *conns,
                    index@,
                ) by {
                    if k < prev.len() {
                        assert(rows@[k] == old_rows[k]);
                    }
                }
            }
        }
        i = i + 1;
    }
    proof {
        assert(devices@.subrange(0, i as int) =~= devices@);
    }
    rows
}


/// The daemon's own status. Each listener and discovery mechanism is given
/// by its error, `None` when it works.
pub struct SystemStatus {
    pub my_id: String,
    pub version: Option<String>,
    pub os: Option<String>,
    pub arch: Option<String>,
    pub uptime: Option<i64>,
    pub listener_errors: Option<Vec<Option<String>>>,
    pub discovery_errors: Option<Vec<Option<String>>>,
}

/// How many of a set of services work, out of how many there are.
#[derive(Clone, Copy, PartialEq, Eq, Structural)]
pub struct ServiceCount {
    pub active: usize,
    pub total: usize,
}

pub struct VersionInfo {
    pub version: String,
    pub os: String,
    pub arch: String,
}

/// The summary of the local device.
pub struct ThisDevice {
    pub download: String,
    pub upload: String,
    pub listeners: Option<ServiceCount>,
    pub discovery: Option<ServiceCount>,
    pub uptime: Option<String>,
    pub short_id: String,
    pub version: Option<VersionInfo>,
}

/// How many of the services report no error.
pub open spec fn count_free(s: Seq<Option<String>>) -> nat
    decreases s.len(),
{
    if s.len() == 0 {
        0
    } else {
        count_free(s.drop_last()) + if s.last() is None {
            1nat
        } else {
            0nat
        }
    }
}

pub open spec fn counter_of(conns: Option<Connections>, inbound: bool) -> int {
    match conns {
        Some(c) => match (if inbound { c.in_bytes_total } else { c.out_bytes_total }) {
            Some(n) => n as int,
            None => 0,
        },
        None => 0,
    }
}

pub open spec fn service_count_matches(
    r: Option<ServiceCount>,
    services: Option<Vec<Option<String>>>,
) -> bool {
    match services {
        Some(v) => r == Some(ServiceCount { active: count_free(v@) as usize, total: v@.len() as usize }),
        None => r is None,
    }
}

/// The summary: lifetime totals (zero when the table is missing), working
/// listeners and discovery mechanisms out of all, the uptime, the short
/// identity, and the version line only when version, OS and architecture
/// are all known.
pub open spec fn this_device_matches(
    t: ThisDevice,
    status: SystemStatus,
    conns: Option<Connections>,
) -> bool {
    &&& t.download@ == bytes_text(counter_of(conns, true))
    &&& t.upload@ == bytes_text(counter_of(conns, false))
    &&& service_count_matches(t.listeners, status.listener_errors)
    &&& service_count_matches(t.discovery, status.discovery_errors)
    &&& match status.uptime {
        Some(u) => t.uptime is Some && t.uptime->0@ == uptime_text(u as int),
        None => t.uptime is None,
    }
    &&& t.short_id@ == short_form(status.my_id@)
    &&& if status.version is Some && status.os is Some && status.arch is Some {
        &&& t.version is Some
        &&& t.version->0.version@ == status.version->0@
        &&& t.version->0.os@ == status.os->0@
        &&& t.version->0.arch@ == status.arch->0@
    } else {
        t.version is None
    }
}

/// Counts the services of a set that report no error.
pub fn count_services(services: &Option<Vec<Option<String>>>) -> (r: Option<ServiceCount>)
    ensures
        service_count_matches(r, *services),
{
    match services {
        Some(v) => {
            let mut active: usize = 0;
            let mut i: usize = 0;
            while i < v.len()
                invariant
                    i <= v@.len(),
                    active == count_free(v@.subrange(0, i as int)),
                    active <= i,
                decreases v.len() - i,
            {
                proof {
                    assert(v@.subrange(0, i + 1).drop_last() =~= v@.subrange(0, i as int));
                }
                if v[i].is_none() {
                    active = active + 1;
                }
                i = i + 1;
            }
            proof {
                assert(v@.subrange(0, i as int) =~= v@);
            }
            Some(ServiceCount { active, total: v.len() })
        },
        None => None,
    }
}

fn counter(conns: &Option<Connections>, inbound: bool) -> (r: i64)
    ensures
        r as int == counter_of(*conns, inbound),
{
    match conns {
        Some(c) => match (if inbound { c.in_bytes_total } else { c.out_bytes_total }) {
            Some(n) => n,
            None => 0,
        },
        None => 0,
    }
}

/// Builds the summary of the local device.
pub fn this_device(status: &SystemStatus, conns: &Option<Connections>) -> (r: ThisDevice)
    ensures
        this_device_matches(r, *status, *conns),
{
    let uptime = match status.uptime {
        Some(u) => Some(format_uptime(u)),
        None => None,
    };
    let version = match (&status.version, &status.os, &status.arch) {
        (Some(v), Some(o), Some(a)) => Some(
            VersionInfo { version: v.clone(), os: o.clone(), arch: a.clone() },
        ),
        _ => None,
    };
    ThisDevice {
        download: format_bytes(counter(conns, true)),
        upload: format_bytes(counter(conns, false)),
        listeners: count_services(&status.listener_errors),
        discovery: count_services(&status.discovery_errors),
        uptime,
        short_id: short_id(status.my_id.as_str()),
        version,
    }
}

} // verus!
