//! Telemetry: which commands are run on a server, and what is made of
//! their output. Rates and percentages are left to the caller, who has
//! the numbers they follow from.

use vstd::prelude::*;
use vstd::pervasive::VecAdditionalExecFns;
use crate::models::hardware::{
    CpuInfo, CpuModel, MemoryInfo, NetworkInfo, NetworkModel, StorageInfo, StorageModel, SwapInfo,
    storage_models, unknown_network,
};
use crate::services::connection::{SshConnectionManager, lookup};
use crate::services::error::{ConnectionError, ErrorModel};
use crate::services::parser::{
    SshDataParser, clean_chars, clean_output, cpu_cores, cpu_model, df_rows, field_value,
    memory_free, memory_total, netdev_rows, read_field, saturated, sum_rx, sum_tx, used_of,
    with_status,
};
use crate::space::{is_alphabetic, is_letter};
use crate::split::{lines, seqs, split_lines};
use crate::text::{contains, has_prefix, has_substring, same_text, slice, starts_with, to_chars};

verus! {

/// What is asked of a server.
#[derive(Debug, Clone, Copy, PartialEq, Eq, Structural)]
pub enum HardwareQuery {
    CpuModel,
    CpuCores,
    CpuUsage,
    CpuFrequency,
    CpuTemperature,
    Memory,
    Swap,
    Storage,
    StorageKind,
    Network,
    NetworkStatus,
}

impl HardwareQuery {
    /// The command that answers the query.
    pub open spec fn command_text(self) -> Seq<char> {
        match self {
            HardwareQuery::CpuModel => "lscpu | grep 'Model name' || lscpu | grep 'Vendor ID' || echo 'Unknown CPU'"@,
            HardwareQuery::CpuCores => "nproc"@,
            HardwareQuery::CpuUsage => "top -bn1 | grep 'Cpu(s)'"@,
            HardwareQuery::CpuFrequency => "lscpu | grep 'CPU MHz'"@,
            HardwareQuery::CpuTemperature => "cat /sys/class/thermal/thermal_zone*/temp 2>/dev/null | head -1"@,
            HardwareQuery::Memory => "cat /proc/meminfo"@,
            HardwareQuery::Swap => "cat /proc/meminfo | grep -i swap"@,
            HardwareQuery::Storage => "df -h"@,
            HardwareQuery::StorageKind => "lsblk -d -o NAME,TYPE,ROTA"@,
            HardwareQuery::Network => "cat /proc/net/dev"@,
            HardwareQuery::NetworkStatus => "ip addr show"@,
        }
    }

    /// The command that answers the query.
    pub fn command(self) -> (text: &'static str)
        ensures
            text@ == self.command_text(),
    {
        match self {
            HardwareQuery::CpuModel => "lscpu | grep 'Model name' || lscpu | grep 'Vendor ID' || echo 'Unknown CPU'",
            HardwareQuery::CpuCores => "nproc",
            HardwareQuery::CpuUsage => "top -bn1 | grep 'Cpu(s)'",
            HardwareQuery::CpuFrequency => "lscpu | grep 'CPU MHz'",
            HardwareQuery::CpuTemperature => "cat /sys/class/thermal/thermal_zone*/temp 2>/dev/null | head -1",
            HardwareQuery::Memory => "cat /proc/meminfo",
            HardwareQuery::Swap => "cat /proc/meminfo | grep -i swap",
            HardwareQuery::Storage => "df -h",
            HardwareQuery::StorageKind => "lsblk -d -o NAME,TYPE,ROTA",
            HardwareQuery::Network => "cat /proc/net/dev",
            HardwareQuery::NetworkStatus => "ip addr show",
        }
    }
}

/// Swap space according to the swap lines of `/proc/meminfo`, in
/// mebibytes; all zero where no swap is configured.
pub open spec fn swap_of(output: Seq<char>) -> SwapInfo {
    let ls = lines(clean_output(output));
    let total = field_value(ls, "SwapTotal:"@);
    let free = field_value(ls, "SwapFree:"@);
    if total > 0 {
        SwapInfo {
            total: (total / 1024) as u64,
            used: used_of(total / 1024, free / 1024) as u64,
            free: (free / 1024) as u64,
        }
    } else {
        SwapInfo { total: 0, used: 0, free: 0 }
    }
}

/// The letters that the name of the disk under `/dev/` begins with, for a
/// device that lives there.
pub open spec fn disk_name(device: Seq<char>) -> Option<Seq<char>> {
    if starts_with(device, "/dev/"@) {
        Some(device.subrange(5, letters_end(device, 5)))
    } else {
        None
    }
}

/// The first position at or after `from` that holds no letter, or the
/// length of `s`.
pub open spec fn letters_end(s: Seq<char>, from: int) -> int
    decreases s.len() - from,
{
    if 0 <= from < s.len() && is_letter(s[from]) {
        letters_end(s, from + 1)
    } else {
        from
    }
}

/// What the first line at or after position `from` that names `disk`
/// says of its medium, if it says anything.
pub open spec fn medium_in(ls: Seq<Seq<char>>, disk: Seq<char>, from: int) -> Option<Seq<char>>
    decreases ls.len() - from,
{
    if from < 0 || from >= ls.len() {
        None
    } else if contains(ls[from], disk) {
        if contains(ls[from], "ROTA=0"@) {
            Some("ssd"@)
        } else if contains(ls[from], "ROTA=1"@) {
            Some("hdd"@)
        } else {
            None
        }
    } else {
        medium_in(ls, disk, from + 1)
    }
}

/// `storage` with the kind of medium that the output of `lsblk` states
/// for its disk, where it states one.
pub open spec fn with_medium(storage: StorageModel, lsblk: Seq<char>) -> StorageModel {
    match disk_name(storage.device) {
        None => storage,
        Some(disk) => match medium_in(lines(lsblk), disk, 0) {
            None => storage,
            Some(kind) => StorageModel { storage_type: kind, ..storage },
        },
    }
}

/// What was read of one interface at the last sample.
#[derive(Debug)]
pub struct InterfaceSample {
    pub name: String,
    pub rx: u64,
    pub tx: u64,
}

/// The last sample of a connection's network counters.
#[derive(Debug)]
pub struct NetworkCache {
    pub connection_id: String,
    pub rx_bytes: u64,
    pub tx_bytes: u64,
    /// Time of the sample, in milliseconds since the Unix epoch.
    pub timestamp: i64,
    pub interfaces: Vec<InterfaceSample>,
}

/// How far the counters moved since the last sample.
#[derive(Debug)]
pub struct SpeedSample {
    /// Milliseconds since the last sample: more than none, less than a
    /// minute.
    pub elapsed_ms: u64,
    /// Bytes received since, over all interfaces.
    pub rx_diff: u64,
    /// Bytes sent since, over all interfaces.
    pub tx_diff: u64,
    /// Bytes received and sent since on each interface, in the order of
    /// the reading; nothing for an interface that the last sample did not
    /// hold.
    pub interfaces: Vec<Option<(u64, u64)>>,
}

/// What an `InterfaceSample` stands for.
pub struct InterfaceSampleModel {
    pub name: Seq<char>,
    pub rx: u64,
    pub tx: u64,
}

/// What a `NetworkCache` stands for.
pub struct CacheModel {
    pub connection_id: Seq<char>,
    pub rx_bytes: u64,
    pub tx_bytes: u64,
    pub timestamp: i64,
    pub interfaces: Seq<InterfaceSampleModel>,
}

impl View for InterfaceSample {
    type V = InterfaceSampleModel;

    open spec fn view(&self) -> InterfaceSampleModel {
        InterfaceSampleModel { name: self.name@, rx: self.rx, tx: self.tx }
    }
}

/// The models of a list of interface samples.
pub open spec fn sample_models(list: Seq<InterfaceSample>) -> Seq<InterfaceSampleModel> {
    Seq::new(list.len(), |i: int| list[i]@)
}

impl View for NetworkCache {
    type V = CacheModel;

    open spec fn view(&self) -> CacheModel {
        CacheModel {
            connection_id: self.connection_id@,
            rx_bytes: self.rx_bytes,
            tx_bytes: self.tx_bytes,
            timestamp: self.timestamp,
            interfaces: sample_models(self.interfaces@),
        }
    }
}

/// The models of a list of samples.
pub open spec fn cache_models(list: Seq<NetworkCache>) -> Seq<CacheModel> {
    Seq::new(list.len(), |i: int| list[i]@)
}

/// Whether a sample is held for the connection `id`.
pub open spec fn has_sample(cache: Seq<CacheModel>, id: Seq<char>) -> bool {
    exists|i: int| 0 <= i < cache.len() && (#[trigger] cache[i]).connection_id == id
}

/// The position of the sample held for the connection `id`.
pub open spec fn sample_position(cache: Seq<CacheModel>, id: Seq<char>) -> int {
    choose|i: int| 0 <= i < cache.len() && (#[trigger] cache[i]).connection_id == id
}

/// No two samples belong to one connection.
pub open spec fn distinct_samples(cache: Seq<CacheModel>) -> bool {
    forall|i: int, j: int|
        0 <= i < cache.len() && 0 <= j < cache.len() && i != j ==> (
        #[trigger] cache[i]).connection_id != (#[trigger] cache[j]).connection_id
}

/// `cache` without the sample of the connection `id`, if it holds one.
pub open spec fn without_sample(cache: Seq<CacheModel>, id: Seq<char>) -> Seq<CacheModel> {
    if has_sample(cache, id) {
        cache.remove(sample_position(cache, id))
    } else {
        cache
    }
}

/// `now` less `before`, and zero where that would be negative.
pub open spec fn moved(now: u64, before: u64) -> u64 {
    if now >= before {
        (now - before) as u64
    } else {
        0
    }
}

/// What the last of the samples before position `upto` that bear `name`
/// holds.
pub open spec fn last_named(samples: Seq<InterfaceSampleModel>, name: Seq<char>, upto: int) -> Option<
    InterfaceSampleModel,
>
    decreases upto,
{
    if upto <= 0 || upto > samples.len() {
        None
    } else if samples[upto - 1].name == name {
        Some(samples[upto - 1])
    } else {
        last_named(samples, name, upto - 1)
    }
}

/// How far the counters of `interface` moved since `samples` were taken.
pub open spec fn interface_moved(
    samples: Seq<InterfaceSampleModel>,
    name: Seq<char>,
    rx: u64,
    tx: u64,
) -> Option<(u64, u64)> {
    match last_named(samples, name, samples.len() as int) {
        Some(sample) => Some((moved(rx, sample.rx), moved(tx, sample.tx))),
        None => None,
    }
}

/// Whether rates can be had from a sample taken at `then` and a reading
/// at `now`: some time has passed, and less than a minute.
pub open spec fn usable_interval(then: i64, now: i64) -> bool {
    0 < now - then < 60_000
}

/// What is kept of a reading taken at `now` for the connection `id`.
pub open spec fn sample_of(id: Seq<char>, reading: NetworkModel, now: i64) -> CacheModel {
    CacheModel {
        connection_id: id,
        rx_bytes: reading.total_rx,
        tx_bytes: reading.total_tx,
        timestamp: now,
        interfaces: reading.interfaces.map_values(
            |interface: crate::models::hardware::InterfaceModel|
                InterfaceSampleModel { name: interface.name, rx: interface.rx, tx: interface.tx },
        ),
    }
}

/// Reads telemetry from the output of the commands it names, and keeps
/// the last network sample of each connection.
pub struct SshHardwareService {
    network_cache: Vec<NetworkCache>,
}

impl View for SshHardwareService {
    type V = Seq<CacheModel>;

    closed spec fn view(&self) -> Seq<CacheModel> {
        cache_models(self.network_cache@)
    }
}

impl SshHardwareService {
    /// At most one sample is held for a connection.
    pub open spec fn wf(&self) -> bool {
        distinct_samples(self@)
    }

    /// A service that holds no sample.
    pub fn new() -> (service: Self)
        ensures
            service.wf(),
            service@.len() == 0,
    {
        let service = SshHardwareService { network_cache: Vec::new() };
        proof {
            assert(service@ =~= Seq::<CacheModel>::empty());
        }
        service
    }

    /// Where the sample of the connection `connection_id` stands.
    fn find_sample(&self, connection_id: &str) -> (found: Option<usize>)
        requires
            self.wf(),
        ensures
            match found {
                Some(i) => i < self@.len() && self@[i as int].connection_id == connection_id@
                    && has_sample(self@, connection_id@) && sample_position(
                    self@,
                    connection_id@,
                ) == i,
                None => !has_sample(self@, connection_id@),
            },
            self@.len() == self.network_cache.len(),
    {
        let mut i: usize = 0;
        while i < self.network_cache.len()
            invariant
                self.wf(),
                i <= self.network_cache.len(),
                self@.len() == self.network_cache.len(),
                forall|j: int| 0 <= j < i ==> (#[trigger] self@[j]).connection_id != connection_id@,
            decreases self.network_cache.len() - i,
        {
            if same_text(self.network_cache[i].connection_id.as_str(), connection_id) {
                proof {
                    assert(self@[i as int].connection_id == connection_id@);
                }
                return Some(i);
            }
            i += 1;
        }
        None
    }

    /// How far the counters of `network_info`, read at `now` on the
    /// connection `connection_id`, moved since the last sample of that
    /// connection; nothing for the first sample, or where the last one was
    /// taken at `now`, after it, or a minute or more before it. The
    /// reading replaces the last sample.
    pub fn calculate_network_speed(
        &mut self,
        connection_id: &str,
        network_info: &NetworkInfo,
        now: i64,
    ) -> (sample: Option<SpeedSample>)
        requires
            old(self).wf(),
        ensures
            final(self).wf(),
            final(self)@ == without_sample(old(self)@, connection_id@).push(
                sample_of(connection_id@, network_info@, now),
            ),
            match sample {
                Some(speed) => {
                    let last = old(self)@[sample_position(old(self)@, connection_id@)];
                    &&& has_sample(old(self)@, connection_id@)
                    &&& usable_interval(last.timestamp, now)
                    &&& speed.elapsed_ms == now - last.timestamp
                    &&& speed.rx_diff == moved(network_info.total_rx, last.rx_bytes)
                    &&& speed.tx_diff == moved(network_info.total_tx, last.tx_bytes)
                    &&& speed.interfaces.len() == network_info.interfaces.len()
                    &&& forall|k: int|
                        0 <= k < speed.interfaces.len() ==> #[trigger] speed.interfaces@[k]
                            == interface_moved(
                            last.interfaces,
                            network_info.interfaces@[k].name@,
                            network_info.interfaces@[k].rx,
                            network_info.interfaces@[k].tx,
                        )
                },
                None => has_sample(old(self)@, connection_id@) ==> !usable_interval(
                    old(self)@[sample_position(old(self)@, connection_id@)].timestamp,
                    now,
                ),
            },
    {
        let found: Option<usize> = self.find_sample(connection_id);
        let mut sample: Option<SpeedSample> = None;
        if let Some(at) = found {
            let then: i64 = self.network_cache[at].timestamp;
            if now > then && (now as i128) - (then as i128) < 60_000 {
                let elapsed_ms: u64 = ((now as i128) - (then as i128)) as u64;
                let mut interfaces: Vec<Option<(u64, u64)>> = Vec::new();
                let mut k: usize = 0;
                while k < network_info.interfaces.len()
                    invariant
                        k <= network_info.interfaces.len(),
                        at < self.network_cache.len(),
                        interfaces.len() == k,
                        forall|j: int|
                            0 <= j < k ==> #[trigger] interfaces@[j] == interface_moved(
                                self.network_cache@[at as int]@.interfaces,
                                network_info.interfaces@[j].name@,
                                network_info.interfaces@[j].rx,
                                network_info.interfaces@[j].tx,
                            ),
                    decreases network_info.interfaces.len() - k,
                {
                    let moved_by: Option<(u64, u64)> = interface_diff(
                        &self.network_cache[at].interfaces,
                        &network_info.interfaces[k].name,
                        network_info.interfaces[k].rx,
                        network_info.interfaces[k].tx,
                    );
                    interfaces.push(moved_by);
                    k += 1;
                }
                sample = Some(
                    SpeedSample {
                        elapsed_ms,
                        rx_diff: diff(network_info.total_rx, self.network_cache[at].rx_bytes),
                        tx_diff: diff(network_info.total_tx, self.network_cache[at].tx_bytes),
                        interfaces,
                    },
                );
            }
            let _ = self.network_cache.remove(at);
            proof {
                assert(self@ =~= old(self)@.remove(at as int));
            }
        }
        let ghost rest = self@;
        proof {
            assert(rest == without_sample(old(self)@, connection_id@));
            assert forall|a: int| 0 <= a < rest.len() implies (#[trigger] rest[a]).connection_id
                != connection_id@ by {
                if let Some(at) = found {
                    let a0 = if a < at { a } else { a + 1 };
                    assert(rest[a] == old(self)@[a0]);
                }
            }
            assert forall|a: int, b: int|
                0 <= a < rest.len() && 0 <= b < rest.len() && a != b implies (
            #[trigger] rest[a]).connection_id != (#[trigger] rest[b]).connection_id by {
                if let Some(at) = found {
                    let a0 = if a < at { a } else { a + 1 };
                    let b0 = if b < at { b } else { b + 1 };
                    assert(rest[a] == old(self)@[a0]);
                    assert(rest[b] == old(self)@[b0]);
                }
            }
        }
        let mut kept: Vec<InterfaceSample> = Vec::new();
        let mut k: usize = 0;
        while k < network_info.interfaces.len()
            invariant
                k <= network_info.interfaces.len(),
                kept.len() == k,
                forall|j: int|
                    0 <= j < k ==> (#[trigger] kept@[j])@ == (InterfaceSampleModel {
                        name: network_info.interfaces@[j].name@,
                        rx: network_info.interfaces@[j].rx,
                        tx: network_info.interfaces@[j].tx,
                    }),
            decreases network_info.interfaces.len() - k,
        {
            kept.push(
                InterfaceSample {
                    name: network_info.interfaces[k].name.clone(),
                    rx: network_info.interfaces[k].rx,
                    tx: network_info.interfaces[k].tx,
                },
            );
            k += 1;
        }
        let entry = NetworkCache {
            connection_id: connection_id.to_owned(),
            rx_bytes: network_info.total_rx,
            tx_bytes: network_info.total_tx,
            timestamp: now,
            interfaces: kept,
        };
        proof {
            assert(entry@.interfaces =~= sample_of(connection_id@, network_info@, now).interfaces);
        }
        self.network_cache.push(entry);
        proof {
            assert(self@ =~= rest.push(sample_of(connection_id@, network_info@, now)));
            assert forall|a: int, b: int|
                0 <= a < self@.len() && 0 <= b < self@.len() && a != b implies (
            #[trigger] self@[a]).connection_id != (#[trigger] self@[b]).connection_id by {
                if a < rest.len() {
                    assert(self@[a] == rest[a]);
                }
                if b < rest.len() {
                    assert(self@[b] == rest[b]);
                }
            }
        }
        sample
    }
}

/// `now` less `before`, and zero where that would be negative.
fn diff(now: u64, before: u64) -> (d: u64)
    ensures
        d == moved(now, before),
{
    if now >= before {
        now - before
    } else {
        0
    }
}

/// How far the counters of the interface `name` moved since `samples`
/// were taken.
fn interface_diff(samples: &Vec<InterfaceSample>, name: &String, rx: u64, tx: u64) -> (d: Option<
    (u64, u64),
>)
    ensures
        d == interface_moved(sample_models(samples@), name@, rx, tx),
{
    let mut upto: usize = samples.len();
    while upto > 0
        invariant
            upto <= samples.len(),
            last_named(sample_models(samples@), name@, samples.len() as int) == last_named(
                sample_models(samples@),
                name@,
                upto as int,
            ),
        decreases upto,
    {
        proof {
            assert(sample_models(samples@)[upto - 1] == samples@[upto - 1]@);
        }
        if same_text(samples[upto - 1].name.as_str(), name.as_str()) {
            return Some((diff(rx, samples[upto - 1].rx), diff(tx, samples[upto - 1].tx)));
        }
        upto -= 1;
    }
    None
}

impl SshHardwareService {
    /// The processor, from the output of the model query and of the
    /// cores query.
    pub fn get_cpu_info(model_output: &str, cores_output: &str) -> (info: CpuInfo)
        ensures
            info@ == (CpuModel { model: cpu_model(model_output@), cores: cpu_cores(
                cores_output@,
            ) as u32 }),
    {
        CpuInfo {
            model: SshDataParser::extract_cpu_model(model_output),
            cores: SshDataParser::extract_cpu_cores(cores_output),
        }
    }

    /// Swap space, from the output of the swap query.
    pub fn get_swap_info(output: &str) -> (info: SwapInfo)
        ensures
            info == swap_of(output@),
    {
        let cleaned: Vec<char> = clean_chars(&to_chars(output));
        let ls: Vec<Vec<char>> = split_lines(&cleaned);
        let total: u64 = read_field(&ls, "SwapTotal:");
        let free: u64 = read_field(&ls, "SwapFree:");
        if total > 0 {
            let total_mb: u64 = total / 1024;
            let free_mb: u64 = free / 1024;
            SwapInfo {
                total: total_mb,
                used: if total_mb >= free_mb {
                    total_mb - free_mb
                } else {
                    0
                },
                free: free_mb,
            }
        } else {
            SwapInfo { total: 0, used: 0, free: 0 }
        }
    }

    /// Memory, from the output of the memory query and, where the swap
    /// query was answered, of that.
    pub fn get_memory_info(meminfo_output: &str, swap_output: Option<&str>) -> (info: MemoryInfo)
        ensures
            info == (MemoryInfo {
                total: memory_total(meminfo_output@) as u64,
                free: memory_free(meminfo_output@) as u64,
                used: used_of(memory_total(meminfo_output@), memory_free(meminfo_output@)) as u64,
                swap: match swap_output {
                    Some(output) => Some(swap_of(output@)),
                    None => None,
                },
            }),
    {
        let mut info = MemoryInfo { total: 0, used: 0, free: 0, swap: None };
        let _ = SshDataParser::parse_meminfo(meminfo_output, &mut info);
        info.swap = match swap_output {
            Some(output) => Some(SshHardwareService::get_swap_info(output)),
            None => None,
        };
        info
    }

    /// Sets the kind of medium of each file system for whose disk the
    /// output of the medium query states one.
    pub fn enrich_storage_type_info(lsblk_output: &str, storage_list: &mut Vec<StorageInfo>)
        ensures
            storage_models(final(storage_list)@) == storage_models(old(storage_list)@).map_values(
                |storage: StorageModel| with_medium(storage, lsblk_output@),
            ),
    {
        let ls: Vec<Vec<char>> = split_lines(&to_chars(lsblk_output));
        let prefix: Vec<char> = to_chars("/dev/");
        proof {
            reveal_strlit("/dev/");
        }
        let mut i: usize = 0;
        while i < storage_list.len()
            invariant
                i <= storage_list.len(),
                storage_list.len() == old(storage_list).len(),
                seqs(ls@) == lines(lsblk_output@),
                prefix@ == "/dev/"@,
                prefix@.len() == 5,
                forall|j: int|
                    0 <= j < i ==> (#[trigger] storage_list@[j])@ == with_medium(
                        old(storage_list)@[j]@,
                        lsblk_output@,
                    ),
                forall|j: int|
                    i <= j < storage_list.len() ==> (#[trigger] storage_list@[j])@ == old(
                        storage_list,
                    )@[j]@,
            decreases storage_list.len() - i,
        {
            let device: Vec<char> = to_chars(storage_list[i].device.as_str());
            if has_prefix(&device, &prefix) {
                let mut end: usize = 5;
                while end < device.len() && is_alphabetic(device[end])
                    invariant
                        5 <= end <= device.len(),
                        letters_end(device@, 5) == letters_end(device@, end as int),
                    decreases device.len() - end,
                {
                    end += 1;
                }
                let disk: Vec<char> = slice(&device, 5, end);
                let medium: Option<&'static str> = find_medium(&ls, &disk);
                if let Some(kind) = medium {
                    let renewed = StorageInfo {
                        device: storage_list[i].device.clone(),
                        mount_point: storage_list[i].mount_point.clone(),
                        filesystem: storage_list[i].filesystem.clone(),
                        total: storage_list[i].total,
                        used: storage_list[i].used,
                        free: storage_list[i].free,
                        storage_type: kind.to_owned(),
                    };
                    storage_list.set(i, renewed);
                }
            }
            i += 1;
        }
        proof {
            assert(storage_models(storage_list@) =~= storage_models(old(storage_list)@).map_values(
                |storage: StorageModel| with_medium(storage, lsblk_output@),
            ));
        }
    }

    /// The file systems, from the output of the storage query and, where
    /// the medium query was answered, of that.
    pub fn get_storage_info(df_output: &str, lsblk_output: Option<&str>) -> (list: Vec<StorageInfo>)
        ensures
            storage_models(list@) == match lsblk_output {
                Some(output) => df_rows(lines(df_output@), 2).map_values(
                    |storage: StorageModel| with_medium(storage, output@),
                ),
                None => df_rows(lines(df_output@), 2),
            },
    {
        let mut list: Vec<StorageInfo> = Vec::new();
        proof {
            assert(storage_models(list@) =~= Seq::<StorageModel>::empty());
        }
        let _ = SshDataParser::parse_df_output(df_output, &mut list);
        proof {
            assert(Seq::<StorageModel>::empty() + df_rows(lines(df_output@), 2) =~= df_rows(
                lines(df_output@),
                2,
            ));
        }
        if let Some(output) = lsblk_output {
            SshHardwareService::enrich_storage_type_info(output, &mut list);
        }
        list
    }

    /// The network interfaces and their totals, from the output of the
    /// network query and, where the status query was answered, of that.
    pub fn get_network_info(netdev_output: &str, ip_output: Option<&str>) -> (info: NetworkInfo)
        ensures
            info@ == ({
                let found = netdev_rows(lines(netdev_output@), 2);
                let interfaces = match ip_output {
                    Some(output) => found.map_values(
                        |interface| with_status(interface, output@),
                    ),
                    None => found,
                };
                NetworkModel {
                    interfaces,
                    total_rx: saturated(sum_rx(interfaces)),
                    total_tx: saturated(sum_tx(interfaces)),
                }
            }),
    {
        let mut info: NetworkInfo = NetworkInfo::default();
        let _ = SshDataParser::parse_netdev_output(netdev_output, &mut info);
        proof {
            assert(unknown_network().interfaces + netdev_rows(lines(netdev_output@), 2)
                =~= netdev_rows(lines(netdev_output@), 2));
        }
        if let Some(output) = ip_output {
            SshDataParser::enrich_network_status(output, &mut info);
        }
        SshDataParser::calculate_network_totals(&mut info);
        info
    }

    /// Whether telemetry can be read on the connection `connection_id`:
    /// a session stands under it and is connected.
    pub fn check_connection(manager: &SshConnectionManager, connection_id: &str) -> (result: Result<
        (),
        ConnectionError,
    >)
        requires
            manager.wf(),
        ensures
            match result {
                Ok(_) => lookup(manager@, connection_id@) is Some && lookup(
                    manager@,
                    connection_id@,
                )->0.status is Connected,
                Err(error) => match lookup(manager@, connection_id@) {
                    None => error@ == ErrorModel::NotFound,
                    Some(found) => !(found.status is Connected) && error@
                        == ErrorModel::NotConnected,
                },
            },
    {
        match manager.get_connection_status(connection_id) {
            Err(error) => Err(error),
            Ok(status) => {
                if status.is_connected() {
                    Ok(())
                } else {
                    Err(ConnectionError::NotConnected)
                }
            },
        }
    }
}

/// What the first line that names `disk` says of its medium.
fn find_medium(ls: &Vec<Vec<char>>, disk: &Vec<char>) -> (kind: Option<&'static str>)
    ensures
        match kind {
            Some(text) => medium_in(seqs(ls@), disk@, 0) == Some(text@),
            None => medium_in(seqs(ls@), disk@, 0) is None,
        },
{
    let mut i: usize = 0;
    while i < ls.len()
        invariant
            i <= ls.len(),
            medium_in(seqs(ls@), disk@, 0) == medium_in(seqs(ls@), disk@, i as int),
        decreases ls.len() - i,
    {
        proof {
            assert(seqs(ls@)[i as int] == ls@[i as int]@);
        }
        if has_substring(&ls[i], disk) {
            if has_substring(&ls[i], &to_chars("ROTA=0")) {
                return Some("ssd");
            } else if has_substring(&ls[i], &to_chars("ROTA=1")) {
                return Some("hdd");
            }
            return None;
        }
        i += 1;
    }
    None
}

} // verus!
