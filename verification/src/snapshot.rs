use vstd::prelude::*;

verus! {

/// One live disk, as the telemetry provider reports it.
pub struct DiskInfo {
    pub mount: String,
    pub fs: String,
    pub kind: String,
    pub total: u64,
    pub avail: u64,
}

/// The mathematical image of a live disk.
pub ghost struct DiskInfoV {
    pub mount: Seq<char>,
    pub fs: Seq<char>,
    pub kind: Seq<char>,
    pub total: u64,
    pub avail: u64,
}

impl View for DiskInfo {
    type V = DiskInfoV;

    open spec fn view(&self) -> DiskInfoV {
        DiskInfoV {
            mount: self.mount@,
            fs: self.fs@,
            kind: self.kind@,
            total: self.total,
            avail: self.avail,
        }
    }
}

/// Memory and swap counters, in bytes.
#[derive(Clone, Copy, Debug, PartialEq, Eq, Structural)]
pub struct MemInfo {
    pub total: u64,
    pub used: u64,
    pub swap_total: u64,
    pub swap_used: u64,
}

/// One live network interface, as the telemetry provider reports it.
pub struct NetInfo {
    pub name: String,
    pub received: u64,
    pub transmitted: u64,
    pub mac: String,
}

/// The mathematical image of a live network interface.
pub ghost struct NetInfoV {
    pub name: Seq<char>,
    pub received: u64,
    pub transmitted: u64,
    pub mac: Seq<char>,
}

impl View for NetInfo {
    type V = NetInfoV;

    open spec fn view(&self) -> NetInfoV {
        NetInfoV {
            name: self.name@,
            received: self.received,
            transmitted: self.transmitted,
            mac: self.mac@,
        }
    }
}

/// System identity facts and the raw output of the title command.
pub struct SysId {
    pub title_output: String,
    pub os_version: String,
    pub kernel_version: String,
    pub cpu_arch: String,
    pub uptime_secs: u64,
}

/// The mathematical image of the system identity facts.
pub ghost struct SysIdV {
    pub title_output: Seq<char>,
    pub os_version: Seq<char>,
    pub kernel_version: Seq<char>,
    pub cpu_arch: Seq<char>,
    pub uptime_secs: u64,
}

impl View for SysId {
    type V = SysIdV;

    open spec fn view(&self) -> SysIdV {
        SysIdV {
            title_output: self.title_output@,
            os_version: self.os_version@,
            kernel_version: self.kernel_version@,
            cpu_arch: self.cpu_arch@,
            uptime_secs: self.uptime_secs,
        }
    }
}

/// One telemetry snapshot: every fact a component may read, fetched afresh by
/// the caller for each measure or render pass.
pub struct Snapshot {
    pub disks: Vec<DiskInfo>,
    pub memory: MemInfo,
    pub networks: Vec<NetInfo>,
    pub system: SysId,
}

/// The mathematical image of a snapshot.
pub ghost struct SnapshotV {
    pub disks: Seq<DiskInfoV>,
    pub memory: MemInfo,
    pub networks: Seq<NetInfoV>,
    pub system: SysIdV,
}

impl View for Snapshot {
    type V = SnapshotV;

    open spec fn view(&self) -> SnapshotV {
        SnapshotV {
            disks: self.disks@.map_values(|d: DiskInfo| d@),
            memory: self.memory,
            networks: self.networks@.map_values(|n: NetInfo| n@),
            system: self.system@,
        }
    }
}

} // verus!
