//! Host fact collection: parsing of platform command output, cached fact
//! families with fallback chains, and assembly of one snapshot document.
pub mod cpu;
pub mod gpu;
pub mod hardware;
pub mod inventory;
pub mod json;
pub mod platform;
pub mod resolver;
pub mod snapshot;
pub mod text;

pub use gpu::split_gpu_info;
pub use hardware::{CpuInfo, DiskInfo, GpuInfo, HardwareInfo, MemoryInfo, OsInfo};
pub use inventory::FileInfo;
