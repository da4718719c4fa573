//! Memory accounting: how much of the memory is in use, from the counters the
//! kernel reports, and the line that says so.

use vstd::prelude::*;
use crate::bytes::{humanize_bytes, humanized, percent_text, percentage};
use crate::text::same_text;

verus! {

/// The kernel's memory counters, in bytes.
#[derive(Clone, Copy, Debug, PartialEq, Eq, Structural)]
pub struct RawMemoryReading {
    /// All the memory there is.
    pub total: usize,
    /// Memory that holds nothing.
    pub free: usize,
    /// Shared memory.
    pub shared: usize,
    /// Buffers of block devices.
    pub buffers: usize,
    /// The page cache.
    pub cached: usize,
    /// Kernel structures that are given back under pressure.
    pub reclaimable: usize,
}

/// One counter of the kernel's report: its name and its value in bytes.
#[derive(Debug)]
pub struct Counter {
    /// The name under which the kernel reports it, such as `MemFree`.
    pub name: String,
    /// Its value.
    pub bytes: usize,
}

/// Total and used memory, in bytes. Used memory is within the total where
/// the statistics are well formed.
#[derive(Clone, Copy, Debug, PartialEq, Eq, Structural)]
pub struct MemStats {
    /// All the memory there is.
    pub total: usize,
    /// The memory in use.
    pub used: usize,
}

/// A counter that the source did not report counts as zero.
pub open spec fn counter_or_zero(counter: Option<usize>) -> usize {
    match counter {
        Some(bytes) => bytes,
        None => 0,
    }
}

/// The value of the first counter of that name, if there is one.
pub open spec fn counter_named(counters: Seq<Counter>, name: Seq<char>) -> Option<usize>
    decreases counters.len(),
{
    if counters.len() == 0 {
        None
    } else if counters.first().name@ == name {
        Some(counters.first().bytes)
    } else {
        counter_named(counters.drop_first(), name)
    }
}

/// The reading that a report of the kernel gives: free memory is its
/// `MemFree`, shared memory its `Shmem`, buffers its `Buffers`, the page
/// cache its `Cached`, and reclaimable memory its `SReclaimable`; each is
/// zero where the report has no counter of that name.
pub open spec fn reading_of(total: usize, counters: Seq<Counter>) -> RawMemoryReading {
    RawMemoryReading {
        total,
        free: counter_or_zero(counter_named(counters, "MemFree"@)),
        shared: counter_or_zero(counter_named(counters, "Shmem"@)),
        buffers: counter_or_zero(counter_named(counters, "Buffers"@)),
        cached: counter_or_zero(counter_named(counters, "Cached"@)),
        reclaimable: counter_or_zero(counter_named(counters, "SReclaimable"@)),
    }
}

/// Used memory: the balance of the reading, and zero where the balance
/// falls below zero.
pub open spec fn used_bytes(reading: RawMemoryReading) -> int {
    if reading.balance() < 0 {
        0
    } else {
        reading.balance()
    }
}

/// `bytes` as far as a `usize` can hold it: the largest `usize` for more.
pub open spec fn within_usize(bytes: int) -> int {
    if bytes > usize::MAX {
        usize::MAX as int
    } else {
        bytes
    }
}

/// What `memory_report` writes.
pub open spec fn report_text(stats: MemStats, percent: bool, used_only: bool) -> Seq<char> {
    if percent {
        percent_text(stats.used as nat, stats.total as nat)
    } else if used_only {
        humanized(stats.used as int, true, false)
    } else {
        humanized(stats.used as int, true, false).push('/') + humanized(
            stats.total as int,
            true,
            false,
        )
    }
}

impl RawMemoryReading {
    /// No more memory is free than there is.
    pub open spec fn well_formed(&self) -> bool {
        self.free <= self.total
    }

    /// `total - free + shared - buffers - cached - reclaimable`, over the
    /// integers: caches and buffers are not in use from a user's point of
    /// view, shared memory is.
    pub open spec fn balance(&self) -> int {
        self.total - self.free + self.shared - self.buffers - self.cached - self.reclaimable
    }

    /// A reading from the counters of one report. Only the total is always
    /// there; each of the others counts as zero where the report lacks it.
    pub fn from_counters(
        total: usize,
        free: Option<usize>,
        shared: Option<usize>,
        buffers: Option<usize>,
        cached: Option<usize>,
        reclaimable: Option<usize>,
    ) -> (reading: RawMemoryReading)
        ensures
            reading.total == total,
            reading.free == counter_or_zero(free),
            reading.shared == counter_or_zero(shared),
            reading.buffers == counter_or_zero(buffers),
            reading.cached == counter_or_zero(cached),
            reading.reclaimable == counter_or_zero(reclaimable),
    {
        RawMemoryReading {
            total,
            free: or_zero(free),
            shared: or_zero(shared),
            buffers: or_zero(buffers),
            cached: or_zero(cached),
            reclaimable: or_zero(reclaimable),
        }
    }

    /// A reading from the total and the counters of the kernel's report.
    /// A counter that the report lacks counts as zero.
    pub fn from_meminfo(total: usize, counters: &Vec<Counter>) -> (reading: RawMemoryReading)
        ensures
            reading == reading_of(total, counters@),
    {
        RawMemoryReading::from_counters(
            total,
            find_counter(counters, "MemFree"),
            find_counter(counters, "Shmem"),
            find_counter(counters, "Buffers"),
            find_counter(counters, "Cached"),
            find_counter(counters, "SReclaimable"),
        )
    }

    /// A reading from a report in kibibytes that knows the total, the free
    /// and the available memory. What is available is what would be given
    /// back under pressure. `None` where a count does not fit in `usize`
    /// once it is in bytes.
    pub fn from_kib(total_kib: u64, free_kib: u64, available_kib: u64) -> (reading: Option<
        RawMemoryReading,
    >)
        ensures
            reading is Some <==> total_kib * 1024 <= usize::MAX && free_kib * 1024 <= usize::MAX
                && available_kib * 1024 <= usize::MAX,
            reading matches Some(r) ==> r.total == total_kib * 1024 && r.free == free_kib * 1024
                && r.reclaimable == available_kib * 1024 && r.shared == 0 && r.buffers == 0
                && r.cached == 0,
    {
        let total = kib_to_bytes(total_kib);
        let free = kib_to_bytes(free_kib);
        let available = kib_to_bytes(available_kib);
        match (total, free, available) {
            (Some(total), Some(free), Some(reclaimable)) => Some(
                RawMemoryReading { total, free, shared: 0, buffers: 0, cached: 0, reclaimable },
            ),
            _ => None,
        }
    }

    /// Whether the reading is well formed.
    pub fn is_well_formed(&self) -> (ok: bool)
        ensures
            ok == self.well_formed(),
    {
        self.free <= self.total
    }
}

impl MemStats {
    /// No more memory is used than there is.
    pub open spec fn well_formed(&self) -> bool {
        self.used <= self.total
    }

    /// Statistics of `used` bytes out of `total`, which are kept as they
    /// are given: they are well formed where `used` is within `total`.
    pub fn new(total: usize, used: usize) -> (stats: MemStats)
        ensures
            stats.total == total,
            stats.used == used,
            used <= total ==> stats.well_formed(),
    {
        MemStats { total, used }
    }
}

/// The value of the first counter named `name`, if there is one.
pub fn find_counter(counters: &Vec<Counter>, name: &str) -> (found: Option<usize>)
    ensures
        found == counter_named(counters@, name@),
{
    let mut index: usize = 0;
    assert(counters@.skip(0) =~= counters@);
    while index < counters.len()
        invariant
            index <= counters.len(),
            counter_named(counters@, name@) == counter_named(counters@.skip(index as int), name@),
        decreases counters.len() - index,
    {
        let ghost rest = counters@.skip(index as int);
        assert(rest.first() == counters@[index as int]);
        assert(rest.drop_first() =~= counters@.skip(index + 1));
        if same_text(counters[index].name.as_str(), name) {
            return Some(counters[index].bytes);
        }
        index = index + 1;
    }
    None
}

/// The counter's value, or zero where there is none.
fn or_zero(counter: Option<usize>) -> (bytes: usize)
    ensures
        bytes == counter_or_zero(counter),
{
    match counter {
        Some(bytes) => bytes,
        None => 0,
    }
}

/// `kib` kibibytes in bytes, where that fits in `usize`.
fn kib_to_bytes(kib: u64) -> (bytes: Option<usize>)
    ensures
        bytes is Some <==> kib * 1024 <= usize::MAX,
        bytes matches Some(b) ==> b == kib * 1024,
{
    let wide: u128 = (kib as u128) * 1024;
    if wide <= usize::MAX as u128 {
        Some(wide as usize)
    } else {
        None
    }
}

/// Where the kernel's counters are consistent, no more memory is used than
/// there is: with no more shared memory than page cache, and no more free
/// memory than memory, the balance does not exceed the total.
pub proof fn lemma_consistent_reading(reading: RawMemoryReading)
    requires
        reading.well_formed(),
        reading.shared <= reading.cached,
    ensures
        reading.balance() <= reading.total,
        used_bytes(reading) <= reading.total,
        within_usize(used_bytes(reading)) == used_bytes(reading),
{
}

/// Used memory from the kernel's counters: what is neither free nor held in
/// buffers, the page cache or reclaimable structures, with shared memory
/// added back.
///
/// Where buffers and caches are reported larger than what is not free, the
/// balance falls below zero, and used memory is zero. Nothing holds the
/// balance down from above: with more shared memory than the rest makes up
/// for, it exceeds the total, and the statistics are then not well formed.
/// A balance that no `usize` can hold is given as the largest `usize`.
pub fn compute_used(reading: &RawMemoryReading) -> (stats: MemStats)
    ensures
        stats.total == reading.total,
        stats.used == within_usize(used_bytes(*reading)),
        used_bytes(*reading) <= reading.total ==> stats.well_formed(),
{
    let gained: u128 = reading.total as u128 + reading.shared as u128;
    let held: u128 = reading.free as u128 + reading.buffers as u128 + reading.cached as u128
        + reading.reclaimable as u128;
    let used: usize = if gained <= held {
        0
    } else {
        let balance: u128 = gained - held;
        if balance > usize::MAX as u128 {
            usize::MAX
        } else {
            balance as usize
        }
    };
    MemStats::new(reading.total, used)
}

/// The line of the memory report.
///
/// With `percent`, used memory as a percentage of the total. Otherwise used
/// memory in binary units, alone with `used_only` and else followed by `/`
/// and the total.
pub fn memory_report(stats: &MemStats, percent: bool, used_only: bool) -> (line: String)
    ensures
        line@ == report_text(*stats, percent, used_only),
{
    if percent {
        return percentage(stats.used as u64, stats.total as u64);
    }
    let mut out = humanize_bytes(stats.used as i128, true, false);
    if used_only {
        return out;
    }
    proof {
        reveal_strlit("/");
    }
    out.append("/");
    let total = humanize_bytes(stats.total as i128, true, false);
    out.append(total.as_str());
    out
}

} // verus!
