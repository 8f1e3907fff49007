//! Amounts of memory and disk space, CPU counts and sort directions.

use vstd::prelude::*;

use crate::number::at_most;
use crate::number::decimal;
use crate::number::show;
use crate::number::show_padded;
use crate::number::times;
use crate::number::zero_padded;

verus! {

/// The direction of a sort.
#[derive(Debug, Clone, Copy, PartialEq, Eq, Structural)]
pub enum SortDirection {
    Asc,
    Desc,
}

impl Default for SortDirection {
    fn default() -> (r: Self)
        ensures
            r == SortDirection::Asc,
    {
        SortDirection::Asc
    }
}

impl SortDirection {
    /// The other direction.
    pub open spec fn flipped(self) -> SortDirection {
        match self {
            SortDirection::Asc => SortDirection::Desc,
            SortDirection::Desc => SortDirection::Asc,
        }
    }

    /// The other direction.
    #[must_use]
    pub fn toggled(self) -> (r: Self)
        ensures
            r == self.flipped(),
    {
        match self {
            SortDirection::Asc => SortDirection::Desc,
            SortDirection::Desc => SortDirection::Asc,
        }
    }

    /// Whether the sort is descending.
    pub fn is_desc(self) -> (r: bool)
        ensures
            r == (self == SortDirection::Desc),
    {
        match self {
            SortDirection::Asc => false,
            SortDirection::Desc => true,
        }
    }
}

/// Toggling a direction twice gives it back, and toggling it once does not.
pub proof fn law_toggle_twice(d: SortDirection)
    ensures
        d.flipped().flipped() == d,
        d.flipped() != d,
{
}

/// An amount of memory in MiB.
#[derive(Debug, Clone, Copy, PartialEq, Eq, PartialOrd, Ord, Structural)]
pub struct MemoryMb(pub u64);

/// What is shown of an amount of memory: whole MiB below one GiB, tenths of GiB below one TiB, and
/// hundredths of TiB from there on, each cut off, not rounded.
pub open spec fn human_memory(mb: nat) -> Seq<char> {
    if mb < 1024 {
        decimal(mb) + "M"@
    } else if mb < 1024 * 1024 {
        let tenths = mb * 10 / 1024;
        decimal(tenths / 10) + "."@ + decimal(tenths % 10) + "G"@
    } else {
        let hundredths = at_most(mb * 100, u64::MAX as nat) / (1024 * 1024);
        decimal(hundredths / 100) + "."@ + zero_padded(decimal(hundredths % 100), 2) + "T"@
    }
}

impl Default for MemoryMb {
    fn default() -> (r: Self)
        ensures
            r == MemoryMb(0),
    {
        MemoryMb(0)
    }
}

impl MemoryMb {
    /// No memory.
    #[must_use]
    pub fn zero() -> (r: Self)
        ensures
            r == MemoryMb(0),
    {
        MemoryMb(0)
    }

    /// What is left after taking `rhs` away, at least zero.
    #[must_use]
    pub fn saturating_sub(self, rhs: Self) -> (r: Self)
        ensures
            r.0 == if self.0 >= rhs.0 { self.0 - rhs.0 } else { 0 },
    {
        MemoryMb(self.0.saturating_sub(rhs.0))
    }

    /// The amount with a unit that fits it.
    #[must_use]
    pub fn human(self) -> (r: String)
        ensures
            r@ == human_memory(self.0 as nat),
    {
        let mb: u64 = self.0;
        if mb < 1024 {
            let mut out = show(mb);
            out.append("M");
            return out;
        }
        if mb < 1024 * 1024 {
            let tenths: u64 = times(mb, 10) / 1024;
            let mut out = show(tenths / 10);
            out.append(".");
            out.append(show(tenths % 10).as_str());
            out.append("G");
            return out;
        }
        let hundredths: u64 = times(mb, 100) / (1024 * 1024);
        let mut out = show(hundredths / 100);
        out.append(".");
        out.append(show_padded(hundredths % 100, 2).as_str());
        out.append("T");
        out
    }
}

/// The CPUs of a node.
#[derive(Debug, Clone, Copy, PartialEq, Eq, Structural)]
pub struct CpuCounts {
    pub total: u64,
    pub allocated: u64,
    pub idle: u64,
    pub other: u64,
}

impl Default for CpuCounts {
    fn default() -> (r: Self)
        ensures
            r == (CpuCounts { total: 0, allocated: 0, idle: 0, other: 0 }),
    {
        CpuCounts { total: 0, allocated: 0, idle: 0, other: 0 }
    }
}

/// The largest unit of which `bytes` holds at least one, from `K` to `P`, and its size.
pub open spec fn byte_unit(bytes: nat) -> (nat, Seq<char>) {
    if bytes < 0x10_0000 {
        (0x400, "K"@)
    } else if bytes < 0x4000_0000 {
        (0x10_0000, "M"@)
    } else if bytes < 0x100_0000_0000 {
        (0x4000_0000, "G"@)
    } else if bytes < 0x4_0000_0000_0000 {
        (0x100_0000_0000, "T"@)
    } else {
        (0x4_0000_0000_0000, "P"@)
    }
}

/// What is shown of a number of bytes: the number below 1024, and tenths of a unit from there on,
/// cut off, not rounded.
pub open spec fn human_size(bytes: nat) -> Seq<char> {
    if bytes < 1024 {
        decimal(bytes) + "B"@
    } else {
        let (size, unit) = byte_unit(bytes);
        let tenths = at_most(bytes * 10, u64::MAX as nat) / size;
        decimal(tenths / 10) + "."@ + decimal(tenths % 10) + unit
    }
}

/// A number of bytes with a unit that fits it.
#[must_use]
pub fn human_bytes(bytes: u64) -> (r: String)
    ensures
        r@ == human_size(bytes as nat),
{
    if bytes < 1024 {
        let mut out = show(bytes);
        out.append("B");
        return out;
    }
    let (size, unit): (u64, &str) = if bytes < 0x10_0000 {
        (0x400, "K")
    } else if bytes < 0x4000_0000 {
        (0x10_0000, "M")
    } else if bytes < 0x100_0000_0000 {
        (0x4000_0000, "G")
    } else if bytes < 0x4_0000_0000_0000 {
        (0x100_0000_0000, "T")
    } else {
        (0x4_0000_0000_0000, "P")
    };
    let tenths: u64 = times(bytes, 10) / size;
    let mut out = show(tenths / 10);
    out.append(".");
    out.append(show(tenths % 10).as_str());
    out.append(unit);
    out
}

} // verus!
