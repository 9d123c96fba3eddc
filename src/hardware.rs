//! The hardware snapshot and its parts. Every field has a zero value, so a
//! probe that fails leaves a field empty, never missing.
use vstd::prelude::*;

verus! {

pub struct OsInfo {
    pub hostname: String,
    pub os_type: String,
    pub version: String,
    pub bitness: String,
}

pub struct CpuInfo {
    pub uuid: String,
    pub name: String,
    pub num: u32,
    pub speed: u64,
    pub core_num: u32,
}

pub struct GpuInfo {
    pub index: String,
    pub name: String,
    pub uuid: String,
    pub gpu_bus_id: String,
    pub memory_used: String,
    pub memory_total: String,
    pub temperature: String,
    pub power_draw: String,
}

pub struct MemoryInfo {
    pub total: u64,
    pub free: u64,
    pub buffers: u64,
    pub cached: u64,
}

/// One disk. Sizes and kinds are kept as the platform wrote them.
pub struct DiskInfo {
    pub media_type: String,
    pub name: String,
    pub size: String,
    pub mount_point: String,
    pub available_space: String,
    pub file_system: String,
    pub total_space: String,
    pub kind: String,
}

pub struct HardwareInfo {
    pub os_info: OsInfo,
    pub cpu_info: CpuInfo,
    pub gpu_info: Vec<GpuInfo>,
    pub mem_info: MemoryInfo,
    pub disks_info: Vec<DiskInfo>,
}

impl CpuInfo {
    pub open spec fn is_empty(&self) -> bool {
        &&& self.uuid@.len() == 0
        &&& self.name@.len() == 0
        &&& self.num == 0
        &&& self.speed == 0
        &&& self.core_num == 0
    }

    /// The value that stands for a processor that could not be read.
    pub fn empty() -> (r: CpuInfo)
        ensures
            r.is_empty(),
    {
        CpuInfo { uuid: String::new(), name: String::new(), num: 0, speed: 0, core_num: 0 }
    }
}

impl MemoryInfo {
    pub open spec fn is_empty(&self) -> bool {
        self.total == 0 && self.free == 0 && self.buffers == 0 && self.cached == 0
    }

    /// The value that stands for memory counters that could not be read.
    pub fn empty() -> (r: MemoryInfo)
        ensures
            r.is_empty(),
    {
        MemoryInfo { total: 0, free: 0, buffers: 0, cached: 0 }
    }
}

impl HardwareInfo {
    /// Puts the parts together; a part whose probe failed becomes its empty value.
    pub fn assemble(
        os_info: OsInfo,
        cpu: Option<CpuInfo>,
        gpu_info: Vec<GpuInfo>,
        mem: Option<MemoryInfo>,
        disks_info: Vec<DiskInfo>,
    ) -> (r: HardwareInfo)
        ensures
            r.os_info == os_info,
            r.gpu_info == gpu_info,
            r.disks_info == disks_info,
            match cpu {
                Some(c) => r.cpu_info == c,
                None => r.cpu_info.is_empty(),
            },
            match mem {
                Some(m) => r.mem_info == m,
                None => r.mem_info.is_empty(),
            },
    {
        let cpu_info = match cpu {
            Some(c) => c,
            None => CpuInfo::empty(),
        };
        let mem_info = match mem {
            Some(m) => m,
            None => MemoryInfo::empty(),
        };
        HardwareInfo { os_info, cpu_info, gpu_info, mem_info, disks_info }
    }
}

} // verus!
