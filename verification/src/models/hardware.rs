//! What is known of a server's hardware, in whole numbers. Percentages
//! and rates follow from these and are left to the caller.

use vstd::prelude::*;
use crate::clock::now_millis;

verus! {

/// The processor.
#[derive(Debug)]
pub struct CpuInfo {
    pub model: String,
    pub cores: u32,
}

/// Swap space, in mebibytes.
#[derive(Debug, Clone, Copy, PartialEq, Eq, Structural)]
pub struct SwapInfo {
    pub total: u64,
    pub used: u64,
    pub free: u64,
}

/// Main memory, in mebibytes.
#[derive(Debug, Clone, Copy, PartialEq, Eq, Structural)]
pub struct MemoryInfo {
    pub total: u64,
    pub used: u64,
    pub free: u64,
    pub swap: Option<SwapInfo>,
}

/// One mounted file system, sizes in mebibytes.
#[derive(Debug)]
pub struct StorageInfo {
    /// Device, such as `/dev/sda1`.
    pub device: String,
    /// Where it is mounted.
    pub mount_point: String,
    /// Type of the file system.
    pub filesystem: String,
    pub total: u64,
    pub used: u64,
    pub free: u64,
    /// Kind of medium: `ssd` or `hdd`.
    pub storage_type: String,
}

/// One network interface, counters in bytes.
#[derive(Debug)]
pub struct NetworkInterface {
    pub name: String,
    /// `up` or `down`.
    pub status: String,
    pub rx: u64,
    pub tx: u64,
}

/// The network interfaces and their totals, in bytes.
#[derive(Debug)]
pub struct NetworkInfo {
    pub interfaces: Vec<NetworkInterface>,
    pub total_rx: u64,
    pub total_tx: u64,
}

/// Everything known of a server's hardware at one time.
#[derive(Debug)]
pub struct HardwareInfo {
    pub cpu: CpuInfo,
    pub memory: MemoryInfo,
    pub storage: Vec<StorageInfo>,
    pub network: NetworkInfo,
    /// Time of the reading, in milliseconds since the Unix epoch.
    pub timestamp: i64,
}

/// What a `CpuInfo` stands for.
pub struct CpuModel {
    pub model: Seq<char>,
    pub cores: u32,
}

/// What a `StorageInfo` stands for.
pub struct StorageModel {
    pub device: Seq<char>,
    pub mount_point: Seq<char>,
    pub filesystem: Seq<char>,
    pub total: u64,
    pub used: u64,
    pub free: u64,
    pub storage_type: Seq<char>,
}

/// What a `NetworkInterface` stands for.
pub struct InterfaceModel {
    pub name: Seq<char>,
    pub status: Seq<char>,
    pub rx: u64,
    pub tx: u64,
}

/// What a `NetworkInfo` stands for.
pub struct NetworkModel {
    pub interfaces: Seq<InterfaceModel>,
    pub total_rx: u64,
    pub total_tx: u64,
}

/// What a `HardwareInfo` stands for.
pub struct HardwareModel {
    pub cpu: CpuModel,
    pub memory: MemoryInfo,
    pub storage: Seq<StorageModel>,
    pub network: NetworkModel,
    pub timestamp: i64,
}

impl View for CpuInfo {
    type V = CpuModel;

    open spec fn view(&self) -> CpuModel {
        CpuModel { model: self.model@, cores: self.cores }
    }
}

impl View for StorageInfo {
    type V = StorageModel;

    open spec fn view(&self) -> StorageModel {
        StorageModel {
            device: self.device@,
            mount_point: self.mount_point@,
            filesystem: self.filesystem@,
            total: self.total,
            used: self.used,
            free: self.free,
            storage_type: self.storage_type@,
        }
    }
}

impl View for NetworkInterface {
    type V = InterfaceModel;

    open spec fn view(&self) -> InterfaceModel {
        InterfaceModel { name: self.name@, status: self.status@, rx: self.rx, tx: self.tx }
    }
}

/// The models of a list of interfaces.
pub open spec fn interface_models(list: Seq<NetworkInterface>) -> Seq<InterfaceModel> {
    Seq::new(list.len(), |i: int| list[i]@)
}

/// The models of a list of file systems.
pub open spec fn storage_models(list: Seq<StorageInfo>) -> Seq<StorageModel> {
    Seq::new(list.len(), |i: int| list[i]@)
}

impl View for NetworkInfo {
    type V = NetworkModel;

    open spec fn view(&self) -> NetworkModel {
        NetworkModel {
            interfaces: interface_models(self.interfaces@),
            total_rx: self.total_rx,
            total_tx: self.total_tx,
        }
    }
}

impl View for HardwareInfo {
    type V = HardwareModel;

    open spec fn view(&self) -> HardwareModel {
        HardwareModel {
            cpu: self.cpu@,
            memory: self.memory,
            storage: storage_models(self.storage@),
            network: self.network@,
            timestamp: self.timestamp,
        }
    }
}

/// A processor of which nothing is known yet.
pub open spec fn unknown_cpu() -> CpuModel {
    CpuModel { model: "Unknown"@, cores: 1 }
}

/// Memory of which nothing is known yet.
pub open spec fn unknown_memory() -> MemoryInfo {
    MemoryInfo { total: 0, used: 0, free: 0, swap: None }
}

/// A file system of which nothing is known yet.
pub open spec fn unknown_storage() -> StorageModel {
    StorageModel {
        device: "Unknown"@,
        mount_point: "/"@,
        filesystem: "Unknown"@,
        total: 0,
        used: 0,
        free: 0,
        storage_type: "hdd"@,
    }
}

/// An interface of which nothing is known yet.
pub open spec fn unknown_interface() -> InterfaceModel {
    InterfaceModel { name: "Unknown"@, status: "down"@, rx: 0, tx: 0 }
}

/// A network of which nothing is known yet.
pub open spec fn unknown_network() -> NetworkModel {
    NetworkModel { interfaces: Seq::empty(), total_rx: 0, total_tx: 0 }
}

impl Default for CpuInfo {
    fn default() -> (info: Self)
        ensures
            info@ == unknown_cpu(),
    {
        CpuInfo { model: "Unknown".to_owned(), cores: 1 }
    }
}

impl Default for SwapInfo {
    fn default() -> (info: Self)
        ensures
            info == (SwapInfo { total: 0, used: 0, free: 0 }),
    {
        SwapInfo { total: 0, used: 0, free: 0 }
    }
}

impl Default for MemoryInfo {
    fn default() -> (info: Self)
        ensures
            info == unknown_memory(),
    {
        MemoryInfo { total: 0, used: 0, free: 0, swap: None }
    }
}

impl Default for StorageInfo {
    fn default() -> (info: Self)
        ensures
            info@ == unknown_storage(),
    {
        StorageInfo {
            device: "Unknown".to_owned(),
            mount_point: "/".to_owned(),
            filesystem: "Unknown".to_owned(),
            total: 0,
            used: 0,
            free: 0,
            storage_type: "hdd".to_owned(),
        }
    }
}

impl Default for NetworkInterface {
    fn default() -> (info: Self)
        ensures
            info@ == unknown_interface(),
    {
        NetworkInterface { name: "Unknown".to_owned(), status: "down".to_owned(), rx: 0, tx: 0 }
    }
}

impl Default for NetworkInfo {
    fn default() -> (info: Self)
        ensures
            info@ == unknown_network(),
    {
        let info = NetworkInfo { interfaces: Vec::new(), total_rx: 0, total_tx: 0 };
        proof {
            assert(interface_models(info.interfaces@) =~= Seq::<InterfaceModel>::empty());
        }
        info
    }
}

impl HardwareInfo {
    /// Hardware of which nothing is known yet, read at time `now`.
    pub fn unknown_at(now: i64) -> (info: Self)
        ensures
            info@ == (HardwareModel {
                cpu: unknown_cpu(),
                memory: unknown_memory(),
                storage: Seq::empty(),
                network: unknown_network(),
                timestamp: now,
            }),
    {
        let info = HardwareInfo {
            cpu: CpuInfo::default(),
            memory: MemoryInfo::default(),
            storage: Vec::new(),
            network: NetworkInfo::default(),
            timestamp: now,
        };
        proof {
            assert(storage_models(info.storage@) =~= Seq::<StorageModel>::empty());
        }
        info
    }
}

impl Default for HardwareInfo {
    fn default() -> (info: Self)
        ensures
            info@ == (HardwareModel {
                cpu: unknown_cpu(),
                memory: unknown_memory(),
                storage: Seq::empty(),
                network: unknown_network(),
                timestamp: info@.timestamp,
            }),
    {
        let now: i64 = now_millis();
        HardwareInfo::unknown_at(now)
    }
}

} // verus!
