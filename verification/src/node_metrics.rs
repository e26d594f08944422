//! A node's metrics, as far as they are whole numbers. Reading them off the
//! machine is the caller's part, and so is the share of idle processor time,
//! which is a fraction.

use vstd::prelude::*;
use vstd::string::*;

verus! {

/// Memory of a node, in bytes.
#[derive(Debug, Clone, Copy, PartialEq, Eq, Structural)]
pub struct MemoryMetrics {
    pub total: u64,
    pub free: u64,
}

/// One disk of a node, in bytes.
#[derive(Debug)]
pub struct DiskMetrics {
    pub disk_name: String,
    pub total: u64,
    pub free: u64,
}

/// `1024 * kilobytes`, stopping at the largest number there is.
pub open spec fn bytes_of(kilobytes: u64) -> u64 {
    if 1024 * kilobytes > u64::MAX {
        u64::MAX
    } else {
        (1024 * kilobytes) as u64
    }
}

/// The memory of a node whose system reports `total` kilobytes of which
/// `used` are in use. What is free is what is not in use, and nothing if more
/// is in use than there is.
pub fn memory(total: u64, used: u64) -> (r: MemoryMetrics)
    ensures
        r.total == bytes_of(total),
        r.free == bytes_of(
            if used > total {
                0
            } else {
                (total - used) as u64
            },
        ),
{
    let rest = if used > total {
        0
    } else {
        total - used
    };
    MemoryMetrics { total: to_bytes(total), free: to_bytes(rest) }
}

fn to_bytes(kilobytes: u64) -> (r: u64)
    ensures
        r == bytes_of(kilobytes),
{
    if kilobytes > u64::MAX / 1024 {
        u64::MAX
    } else {
        1024 * kilobytes
    }
}

/// A disk of a node. A disk whose name cannot be read is called `unknown`.
pub fn disk(name: Option<String>, total: u64, free: u64) -> (r: DiskMetrics)
    ensures
        r.disk_name@ == (match name {
            Some(n) => n@,
            None => "unknown"@,
        }),
        r.total == total,
        r.free == free,
{
    let disk_name = match name {
        Some(n) => n,
        None => String::from_str("unknown"),
    };
    DiskMetrics { disk_name, total, free }
}

/// The number of processors as the metrics carry it: the count, stopping
/// at 255, the largest number that the metrics can carry.
pub fn processors(count: usize) -> (r: u8)
    ensures
        r == (if count > 255 {
            255
        } else {
            count as int
        }),
{
    if count > 255 {
        255
    } else {
        count as u8
    }
}

} // verus!
