//! Sizing the network stress test to the machine: from the logical CPU
//! count and the memory a hardware probe reports, the number of synthetic
//! clients the machine can carry.

use vstd::prelude::*;

verus! {

/// Detected machine capabilities used to size stress-test defaults.
pub struct MachineCapabilities {
    pub cpu_cores: usize,
    pub total_ram_mb: u64,
    pub recommended_max_clients: i32,
}

/// How many synthetic clients a machine carries: 25 per core, capped by
/// memory at one client per 4 MB (each count truncated to `i32`), never
/// more than 500 and never fewer than 10.
pub open spec fn spec_recommended_clients(cpu_cores: usize, total_ram_mb: u64) -> i32 {
    let by_cpu = (cpu_cores * 25) as i32;
    let by_ram = (total_ram_mb / 4) as i32;
    let m = if by_cpu <= by_ram { by_cpu } else { by_ram };
    let m = if m <= 500 { m } else { 500 };
    if m >= 10 { m } else { 10 }
}

/// How many synthetic clients a machine with these cores and this much
/// memory (in MB) carries.
pub fn recommended_clients(cpu_cores: usize, total_ram_mb: u64) -> (r: i32)
    ensures
        r == spec_recommended_clients(cpu_cores, total_ram_mb),
        10 <= r <= 500,
{
    let by_cpu = ((cpu_cores as u128) * 25) as i32;
    let by_ram = (total_ram_mb / 4) as i32;
    let m = if by_cpu <= by_ram { by_cpu } else { by_ram };
    let m = if m <= 500 { m } else { 500 };
    if m >= 10 { m } else { 10 }
}

impl MachineCapabilities {
    /// The capabilities of a machine whose probe reported `cpu_count`
    /// logical CPUs (at least one is counted) and `total_memory_bytes` of
    /// RAM (counted in whole MB), with the client limit they give.
    pub fn detect(cpu_count: usize, total_memory_bytes: u64) -> (r: Self)
        ensures
            r.cpu_cores == if cpu_count >= 1 { cpu_count } else { 1 },
            r.total_ram_mb == total_memory_bytes / 1048576u64,
            r.recommended_max_clients == spec_recommended_clients(r.cpu_cores, r.total_ram_mb),
            10 <= r.recommended_max_clients <= 500,
    {
        let cpu_cores = if cpu_count >= 1 { cpu_count } else { 1 };
        let total_ram_mb = total_memory_bytes / (1024 * 1024);
        let recommended_max_clients = recommended_clients(cpu_cores, total_ram_mb);
        MachineCapabilities { cpu_cores, total_ram_mb, recommended_max_clients }
    }
}

impl Default for MachineCapabilities {
    /// Four cores, 8 GB, fifty clients.
    fn default() -> (r: Self)
        ensures
            r.cpu_cores == 4,
            r.total_ram_mb == 8192,
            r.recommended_max_clients == 50,
    {
        MachineCapabilities { cpu_cores: 4, total_ram_mb: 8192, recommended_max_clients: 50 }
    }
}

} // verus!
