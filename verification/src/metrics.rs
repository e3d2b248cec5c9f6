//! The integer side of the system metrics sample: CPU frequency average,
//! network and disk totals, which temperature sensors describe the CPU,
//! and when a recent sample is reused.

use vstd::prelude::*;
use vstd::string::*;

use crate::assets::{find, find_from};
use crate::text::{ascii_lowercase, ascii_lowercase_spec};

verus! {

/// The sum of the values.
pub open spec fn sum_spec(values: Seq<u64>) -> int
    decreases values.len(),
{
    if values.len() == 0 {
        0
    } else {
        sum_spec(values.drop_last()) + values.last()
    }
}

proof fn lemma_sum_prefix_bounded(values: Seq<u64>, i: int)
    requires
        0 <= i <= values.len(),
    ensures
        0 <= sum_spec(values.subrange(0, i)) <= sum_spec(values),
    decreases values.len() - i,
{
    if i < values.len() {
        lemma_sum_prefix_bounded(values, i + 1);
        assert(values.subrange(0, i + 1).drop_last() =~= values.subrange(0, i));
    } else {
        assert(values.subrange(0, i) =~= values);
    }
    lemma_sum_nonnegative(values.subrange(0, i));
}

proof fn lemma_sum_nonnegative(values: Seq<u64>)
    ensures
        sum_spec(values) >= 0,
    decreases values.len(),
{
    if values.len() > 0 {
        lemma_sum_nonnegative(values.drop_last());
    }
}

/// Adds the values up (`Iterator::sum`), which must not overflow.
pub fn sum_u64(values: &Vec<u64>) -> (total: u64)
    requires
        sum_spec(values@) <= u64::MAX,
    ensures
        total == sum_spec(values@),
{
    let mut total: u64 = 0;
    let mut i: usize = 0;
    while i < values.len()
        invariant
            i <= values@.len(),
            sum_spec(values@) <= u64::MAX,
            total == sum_spec(values@.subrange(0, i as int)),
        decreases values@.len() - i,
    {
        proof {
            lemma_sum_prefix_bounded(values@, i + 1);
            assert(values@.subrange(0, i + 1).drop_last() =~= values@.subrange(0, i as int));
        }
        total = total + values[i];
        i = i + 1;
    }
    assert(values@.subrange(0, values@.len() as int) =~= values@);
    total
}

/// The mean CPU frequency in MHz, rounded down; 0 without CPUs.
pub fn average_frequency(frequencies: &Vec<u64>) -> (mhz: u64)
    requires
        sum_spec(frequencies@) <= u64::MAX,
    ensures
        frequencies@.len() == 0 ==> mhz == 0,
        frequencies@.len() > 0 ==> mhz == sum_spec(frequencies@) / (frequencies@.len() as int),
{
    if frequencies.len() == 0 {
        return 0;
    }
    let total = sum_u64(frequencies);
    total / (frequencies.len() as u64)
}

/// A running sum that stops at `u64::MAX` (`saturating_add` step by step).
pub open spec fn saturating_sum(values: Seq<u64>) -> u64
    decreases values.len(),
{
    if values.len() == 0 {
        0
    } else {
        let s = saturating_sum(values.drop_last());
        if s + values.last() > u64::MAX {
            u64::MAX
        } else {
            (s + values.last()) as u64
        }
    }
}

/// One disk as the sampler reads it.
#[derive(Debug, Clone, Copy, PartialEq, Eq, Structural)]
pub struct DiskSample {
    pub total_bytes: u64,
    pub available_bytes: u64,
    pub read_bytes: u64,
    pub written_bytes: u64,
}

/// The disks added up.
#[derive(Debug, Clone, Copy, PartialEq, Eq, Structural)]
pub struct DiskTotals {
    pub total_bytes: u64,
    pub used_bytes: u64,
    pub read_bytes: u64,
    pub written_bytes: u64,
}

pub open spec fn totals_of(disks: Seq<DiskSample>) -> Seq<u64> {
    disks.map_values(|d: DiskSample| d.total_bytes)
}

pub open spec fn available_of(disks: Seq<DiskSample>) -> Seq<u64> {
    disks.map_values(|d: DiskSample| d.available_bytes)
}

pub open spec fn read_of(disks: Seq<DiskSample>) -> Seq<u64> {
    disks.map_values(|d: DiskSample| d.read_bytes)
}

pub open spec fn written_of(disks: Seq<DiskSample>) -> Seq<u64> {
    disks.map_values(|d: DiskSample| d.written_bytes)
}

fn saturating_add(a: u64, b: u64) -> (r: u64)
    ensures
        r == if a + b > u64::MAX {
            u64::MAX
        } else {
            (a + b) as u64
        },
{
    if a > u64::MAX - b {
        u64::MAX
    } else {
        a + b
    }
}

/// Adds the disks up, each sum saturating; used space is total minus
/// available, at least 0.
pub fn disk_totals(disks: &Vec<DiskSample>) -> (t: DiskTotals)
    ensures
        t.total_bytes == saturating_sum(totals_of(disks@)),
        t.read_bytes == saturating_sum(read_of(disks@)),
        t.written_bytes == saturating_sum(written_of(disks@)),
        t.used_bytes == if saturating_sum(totals_of(disks@)) >= saturating_sum(
            available_of(disks@),
        ) {
            (saturating_sum(totals_of(disks@)) - saturating_sum(available_of(disks@))) as u64
        } else {
            0
        },
{
    let mut total: u64 = 0;
    let mut available: u64 = 0;
    let mut read: u64 = 0;
    let mut written: u64 = 0;
    let mut i: usize = 0;
    while i < disks.len()
        invariant
            i <= disks@.len(),
            total == saturating_sum(totals_of(disks@.subrange(0, i as int))),
            available == saturating_sum(available_of(disks@.subrange(0, i as int))),
            read == saturating_sum(read_of(disks@.subrange(0, i as int))),
            written == saturating_sum(written_of(disks@.subrange(0, i as int))),
        decreases disks@.len() - i,
    {
        let d = disks[i];
        let ghost prefix = disks@.subrange(0, i + 1);
        assert(prefix.drop_last() =~= disks@.subrange(0, i as int));
        assert(totals_of(prefix).drop_last() =~= totals_of(disks@.subrange(0, i as int)));
        assert(available_of(prefix).drop_last() =~= available_of(disks@.subrange(0, i as int)));
        assert(read_of(prefix).drop_last() =~= read_of(disks@.subrange(0, i as int)));
        assert(written_of(prefix).drop_last() =~= written_of(disks@.subrange(0, i as int)));
        total = saturating_add(total, d.total_bytes);
        available = saturating_add(available, d.available_bytes);
        read = saturating_add(read, d.read_bytes);
        written = saturating_add(written, d.written_bytes);
        i = i + 1;
    }
    assert(disks@.subrange(0, disks@.len() as int) =~= disks@);
    let used = if total >= available {
        total - available
    } else {
        0
    };
    DiskTotals { total_bytes: total, used_bytes: used, read_bytes: read, written_bytes: written }
}

/// A sensor whose name (in any ASCII case) mentions the CPU: `cpu`,
/// `package`, `core` or `processor`.
pub open spec fn is_cpu_sensor_name_spec(name: Seq<char>) -> bool {
    let lower = ascii_lowercase_spec(name);
    find_from(lower, "cpu"@, 0) is Some || find_from(lower, "package"@, 0) is Some || find_from(
        lower,
        "core"@,
        0,
    ) is Some || find_from(lower, "processor"@, 0) is Some
}

/// Whether a temperature sensor describes the CPU.
pub fn is_cpu_sensor_name(name: &str) -> (r: bool)
    ensures
        r == is_cpu_sensor_name_spec(name@),
{
    let lower = ascii_lowercase(name);
    let l = lower.as_str();
    find(l, "cpu").is_some() || find(l, "package").is_some() || find(l, "core").is_some() || find(
        l,
        "processor",
    ).is_some()
}

/// Requests closer together than this reuse the last sample.
pub const SNAPSHOT_REUSE_MS: u64 = 250;

/// A sample taken less than 250 ms ago is reused, when there is one.
pub fn reuse_last_sample(elapsed_ms: u64, has_last: bool) -> (r: bool)
    ensures
        r == (elapsed_ms < SNAPSHOT_REUSE_MS && has_last),
{
    elapsed_ms < SNAPSHOT_REUSE_MS && has_last
}

} // verus!
