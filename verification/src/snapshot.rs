//! Snapshot assembly and the collection schedule.
//!
//! A snapshot is one complete, immutable point-in-time collection of all
//! host facts: once assembled it is fully populated, with a documented
//! sentinel (empty text, empty list, zero, or nothing) wherever a probe
//! could not determine a value, never a partial record.  The scheduler
//! drives the unbounded cycle of assemble, persist, deliver and sleep at a
//! fixed cadence; a failed cycle's snapshot is dropped and the next cycle
//! runs undisturbed.
//!
//! Fractional kernel metrics are carried as scaled integers: CPU usage in
//! hundredths of a percent and load averages in thousandths, as the host
//! program hands them in.

use vstd::prelude::*;
use crate::access::UserAccess;
use crate::boot::BootRecord;
use crate::hardware::HardwareProfile;
use crate::network::NetworkInterfaceRecord;
use crate::security::SecurityRecord;
use crate::services::ServiceRecord;
use crate::text::{
    find_sub, has_sub, split_at_sep, split_on_char, sub_pos, trim_str, trimmed,
};

verus! {

/// Kernel-level CPU facts.
#[derive(Debug, Clone, Copy)]
pub struct CpuStats {
    pub usage_centi_percent: u64,
    pub temperature_centi_celsius: Option<u64>,
    pub frequency_mhz: u64,
}

/// Kernel-level memory facts, in megabytes.
#[derive(Debug, Clone, Copy)]
pub struct MemoryStats {
    pub total_mb: u64,
    pub used_mb: u64,
    pub free_mb: u64,
}

/// Derive the memory record from the kernel's byte counters.  A used count
/// above the total would be nonsensical and reads as no free memory.
pub fn memory_stats_from(total_bytes: u64, used_bytes: u64) -> (r: MemoryStats)
    ensures
        r.total_mb == total_bytes / 1024 / 1024,
        r.used_mb == used_bytes / 1024 / 1024,
        used_bytes <= total_bytes ==> r.free_mb == (total_bytes - used_bytes) / 1024 / 1024,
        used_bytes > total_bytes ==> r.free_mb == 0,
{
    MemoryStats {
        total_mb: total_bytes / 1024 / 1024,
        used_mb: used_bytes / 1024 / 1024,
        free_mb: if used_bytes <= total_bytes {
            (total_bytes - used_bytes) / 1024 / 1024
        } else {
            0
        },
    }
}

/// The load averages over one, five and fifteen minutes, in thousandths.
#[derive(Debug, Clone, Copy)]
pub struct LoadStats {
    pub one_milli: u64,
    pub five_milli: u64,
    pub fifteen_milli: u64,
}

/// One mounted disk's capacity facts, in bytes.
#[derive(Debug, Clone)]
pub struct DiskRecord {
    pub name: String,
    pub total_bytes: u64,
    pub used_bytes: u64,
    pub available_bytes: u64,
    pub mount_point: String,
}

/// Derive one disk's record from the kernel's capacity counters.  More
/// available than total would be nonsensical and reads as nothing used.
pub fn disk_record_from(name: &str, mount_point: &str, total_bytes: u64, available_bytes: u64) -> (r:
    DiskRecord)
    ensures
        r.name@ == name@,
        r.mount_point@ == mount_point@,
        r.total_bytes == total_bytes,
        r.available_bytes == available_bytes,
        available_bytes <= total_bytes ==> r.used_bytes == total_bytes - available_bytes,
        available_bytes > total_bytes ==> r.used_bytes == 0,
{
    DiskRecord {
        name: name.to_owned(),
        total_bytes,
        used_bytes: if available_bytes <= total_bytes {
            total_bytes - available_bytes
        } else {
            0
        },
        available_bytes,
        mount_point: mount_point.to_owned(),
    }
}

/// One live process at capture time, from the kernel's own process table.
#[derive(Debug, Clone)]
pub struct ProcessRecord {
    pub pid: u32,
    pub name: String,
    pub cpu_usage_centi_percent: u64,
    pub memory_usage_bytes: u64,
    pub status: String,
    pub user: String,
    pub command: String,
}

/// Uptime facts: the tool outputs trimmed, plus the merged reboot history.
#[derive(Debug, Clone)]
pub struct UptimeRecord {
    pub current_uptime: String,
    pub last_boot_time: String,
    pub reboot_history: Vec<BootRecord>,
}

/// Build the uptime record from the two tools' raw outputs and the merged
/// reboot history.
pub fn build_uptime_record(uptime_out: &str, boot_out: &str, reboot_history: Vec<BootRecord>) -> (r:
    UptimeRecord)
    ensures
        r.current_uptime@ == trimmed(uptime_out@),
        r.last_boot_time@ == trimmed(boot_out@),
        r.reboot_history == reboot_history,
{
    UptimeRecord {
        current_uptime: trim_str(uptime_out),
        last_boot_time: trim_str(boot_out),
        reboot_history,
    }
}

/// The trimmed text of each part, in order.
pub open spec fn trimmed_parts(parts: Seq<Seq<char>>) -> Seq<Seq<char>>
    decreases parts.len(),
{
    if parts.len() == 0 {
        Seq::<Seq<char>>::empty()
    } else {
        trimmed_parts(parts.drop_last()).push(trimmed(parts.last()))
    }
}

/// The comma-separated fields after the load-average marker of the uptime
/// tool's output, each trimmed; no marker yields the single empty field
/// that splitting empty text leaves.
pub open spec fn load_fields(s: Seq<char>) -> Seq<Seq<char>> {
    if has_sub(s, "load average:"@) {
        trimmed_parts(
            split_at_sep(s.subrange(sub_pos(s, "load average:"@) + "load average:"@.len(), s.len() as int), ','),
        )
    } else {
        trimmed_parts(split_at_sep(Seq::<char>::empty(), ','))
    }
}

/// Cut the load-average fields out of the uptime tool's output.  The host
/// program reads each field as a fractional number, thousandths standing
/// for the fraction, with zero for an unparseable field.
pub fn load_average_fields(uptime_out: &str) -> (r: Vec<String>)
    ensures
        r.deep_view() == load_fields(uptime_out@),
{
    let marker = "load average:";
    let parts: Vec<String> = match find_sub(uptime_out, marker) {
        Some(k) => {
            let n = uptime_out.unicode_len();
            let plen = marker.unicode_len();
            let rest = uptime_out.substring_char(k + plen, n);
            split_on_char(rest, ',')
        },
        None => {
            let mut one: Vec<String> = Vec::new();
            one.push(String::new());
            proof {
                assert(one.deep_view() =~= seq![Seq::<char>::empty()]);
            }
            one
        },
    };
    let mut r: Vec<String> = Vec::new();
    let mut i: usize = 0;
    proof {
        assert(parts.deep_view().take(0) =~= Seq::<Seq<char>>::empty());
        assert(r.deep_view() =~= Seq::<Seq<char>>::empty());
    }
    while i < parts.len()
        invariant
            i <= parts@.len(),
            parts.deep_view().len() == parts@.len(),
            r.deep_view() == trimmed_parts(parts.deep_view().take(i as int)),
        decreases parts@.len() - i,
    {
        proof {
            assert(parts.deep_view().take(i + 1).drop_last() =~= parts.deep_view().take(i as int));
            assert(parts.deep_view().take(i + 1).last() == parts@[i as int]@);
        }
        let ghost prev = r.deep_view();
        let t = trim_str(parts[i].as_str());
        r.push(t);
        proof {
            assert(r.deep_view() =~= prev.push(trimmed(parts@[i as int]@)));
        }
        i += 1;
    }
    proof {
        assert(parts.deep_view().take(parts@.len() as int) =~= parts.deep_view());
    }
    r
}

/// The root aggregate: one complete collection of all host facts, stamped
/// with its capture instant.
#[derive(Debug, Clone)]
pub struct Snapshot {
    pub cpu: CpuStats,
    pub memory: MemoryStats,
    pub load_avg: LoadStats,
    pub disks: Vec<DiskRecord>,
    pub network_interfaces: Vec<NetworkInterfaceRecord>,
    pub user_access: UserAccess,
    pub services: Vec<ServiceRecord>,
    pub security: SecurityRecord,
    pub hardware: HardwareProfile,
    pub system_uptime: UptimeRecord,
    pub hostname: String,
    pub kernel_version: String,
    pub os_version: String,
    pub process_list: Vec<ProcessRecord>,
    pub timestamp: String,
}

/// Compose the snapshot from every probe's resolved output plus the
/// kernel-level metrics: pure composition, no retries, and never a partial
/// result — each field is exactly what was handed in.
pub fn assemble_snapshot(
    cpu: CpuStats,
    memory: MemoryStats,
    load_avg: LoadStats,
    disks: Vec<DiskRecord>,
    network_interfaces: Vec<NetworkInterfaceRecord>,
    user_access: UserAccess,
    services: Vec<ServiceRecord>,
    security: SecurityRecord,
    hardware: HardwareProfile,
    system_uptime: UptimeRecord,
    hostname: String,
    kernel_version: String,
    os_version: String,
    process_list: Vec<ProcessRecord>,
    timestamp: String,
) -> (r: Snapshot)
    ensures
        r.cpu == cpu,
        r.memory == memory,
        r.load_avg == load_avg,
        r.disks == disks,
        r.network_interfaces == network_interfaces,
        r.user_access == user_access,
        r.services == services,
        r.security == security,
        r.hardware == hardware,
        r.system_uptime == system_uptime,
        r.hostname == hostname,
        r.kernel_version == kernel_version,
        r.os_version == os_version,
        r.process_list == process_list,
        r.timestamp == timestamp,
{
    Snapshot {
        cpu,
        memory,
        load_avg,
        disks,
        network_interfaces,
        user_access,
        services,
        security,
        hardware,
        system_uptime,
        hostname,
        kernel_version,
        os_version,
        process_list,
        timestamp,
    }
}

/// The file name a snapshot is persisted under, from its formatted capture
/// stamp.
pub fn snapshot_filename(stamp: &str) -> (r: String)
    ensures
        r@ == "system_info_"@ + stamp@ + ".json"@,
{
    let mut r = "system_info_".to_owned();
    r.append(stamp);
    r.append(".json");
    r
}

/// The delivery endpoint under a configured base address.
pub fn endpoint_url(base_url: &str) -> (r: String)
    ensures
        r@ == base_url@ + "/api/v1/system-info"@,
{
    let mut r = base_url.to_owned();
    r.append("/api/v1/system-info");
    r
}

/// How one collection cycle went: whether the snapshot was persisted and
/// whether it was delivered.
#[derive(Debug, Clone, Copy, PartialEq, Eq, Structural)]
pub struct CycleOutcome {
    pub persisted: bool,
    pub delivered: bool,
}

/// What the scheduler directs after a cycle: whether to run another and
/// how long to sleep first.
#[derive(Debug, Clone, Copy, PartialEq, Eq, Structural)]
pub struct CycleStep {
    pub keep_running: bool,
    pub sleep_seconds: u64,
}

/// The scheduler's whole decision rule: every cycle, whatever its outcome,
/// is followed by another after the fixed interval.
pub open spec fn cycle_step(interval_seconds: u64, outcome: CycleOutcome) -> CycleStep {
    CycleStep { keep_running: true, sleep_seconds: interval_seconds }
}

/// Drives the unbounded collection loop at a fixed cadence.
#[derive(Debug, Clone, Copy)]
pub struct CollectionScheduler {
    pub interval_seconds: u64,
}

impl CollectionScheduler {
    /// A scheduler with the given sleep interval between cycles.
    pub fn new(interval_seconds: u64) -> (r: CollectionScheduler)
        ensures
            r.interval_seconds == interval_seconds,
    {
        CollectionScheduler { interval_seconds }
    }

    /// Decide what follows a finished cycle.  A persistence or delivery
    /// failure is absorbed here: the loop continues undisturbed, with no
    /// cycle skip, backoff or circuit breaker.
    pub fn next_cycle(&self, outcome: CycleOutcome) -> (r: CycleStep)
        ensures
            r == cycle_step(self.interval_seconds, outcome),
            r.keep_running,
            r.sleep_seconds == self.interval_seconds,
    {
        CycleStep { keep_running: true, sleep_seconds: self.interval_seconds }
    }
}

/// The scheduling law: a delivery or persistence failure never stops the
/// loop, and the cadence never varies — after any two outcomes whatever,
/// the directive is the same: keep running, sleep the fixed interval.
pub proof fn lemma_cycle_failures_tolerated(
    interval_seconds: u64,
    first: CycleOutcome,
    second: CycleOutcome,
)
    ensures
        cycle_step(interval_seconds, first).keep_running,
        cycle_step(interval_seconds, first).sleep_seconds == interval_seconds,
        cycle_step(interval_seconds, first) == cycle_step(interval_seconds, second),
{
}

} // verus!
