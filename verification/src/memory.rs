use vstd::prelude::*;

verus! {

/// Memory pressure, from comfortable to critical.
#[derive(Debug, Clone, Copy, PartialEq, Eq, Structural)]
pub enum MemoryStatus {
    /// Less than 70% of memory in use.
    Safe,
    /// At least 70% and less than 80% in use.
    Warning,
    /// At least 80% and less than 90% in use.
    Danger,
    /// At least 90% in use.
    Emergency,
}

/// Memory in use: what is not available, and none when more is available
/// than there is in all.
pub open spec fn used_of(total: u64, available: u64) -> int {
    if total > available {
        total - available
    } else {
        0
    }
}

/// The status of a machine with `total` bytes of which `available` are
/// free: by the share of memory in use, `used / total` (taken as zero when
/// `total` is zero), against 70%, 80% and 90%.
pub open spec fn status_of(total: u64, available: u64) -> MemoryStatus {
    let used = used_of(total, available);
    if total == 0 {
        MemoryStatus::Safe
    } else if 10 * used >= 9 * total {
        MemoryStatus::Emergency
    } else if 10 * used >= 8 * total {
        MemoryStatus::Danger
    } else if 10 * used >= 7 * total {
        MemoryStatus::Warning
    } else {
        MemoryStatus::Safe
    }
}

/// The node count suggested under each status: the maximum when memory is
/// safe, otherwise the current count lowered by one, two or three (not
/// below zero) and raised to at least the minimum.
pub open spec fn suggestion_of(
    status: MemoryStatus,
    current_nodes: usize,
    min_nodes: usize,
    max_nodes: usize,
) -> int {
    let lowered = |by: int|
        if current_nodes >= by {
            current_nodes - by
        } else {
            0
        };
    let floor_min = |n: int|
        if n >= min_nodes {
            n
        } else {
            min_nodes as int
        };
    match status {
        MemoryStatus::Safe => max_nodes as int,
        MemoryStatus::Warning => floor_min(lowered(1)),
        MemoryStatus::Danger => floor_min(lowered(2)),
        MemoryStatus::Emergency => floor_min(lowered(3)),
    }
}

impl MemoryStatus {
    /// The status's name, as it is displayed.
    pub fn label(&self) -> (s: &'static str)
        ensures
            s@ == (match *self {
                MemoryStatus::Safe => "Safe"@,
                MemoryStatus::Warning => "Warning"@,
                MemoryStatus::Danger => "Danger"@,
                MemoryStatus::Emergency => "Emergency"@,
            }),
    {
        match self {
            MemoryStatus::Safe => "Safe",
            MemoryStatus::Warning => "Warning",
            MemoryStatus::Danger => "Danger",
            MemoryStatus::Emergency => "Emergency",
        }
    }
}

/// Bytes in use on a machine with `total` bytes of which `available` are
/// free.
pub fn used_memory(total: u64, available: u64) -> (u: u64)
    ensures
        u == used_of(total, available),
{
    if total > available {
        total - available
    } else {
        0
    }
}

/// The memory status for `total` bytes of which `available` are free.
pub fn memory_status(total: u64, available: u64) -> (s: MemoryStatus)
    ensures
        s == status_of(total, available),
{
    let used = used_memory(total, available) as u128;
    let total_wide = total as u128;
    if total == 0 {
        MemoryStatus::Safe
    } else if 10 * used >= 9 * total_wide {
        MemoryStatus::Emergency
    } else if 10 * used >= 8 * total_wide {
        MemoryStatus::Danger
    } else if 10 * used >= 7 * total_wide {
        MemoryStatus::Warning
    } else {
        MemoryStatus::Safe
    }
}

/// The number of nodes to run under `status`: see `suggestion_of`.
pub fn suggested_node_count(
    status: MemoryStatus,
    current_nodes: usize,
    min_nodes: usize,
    max_nodes: usize,
) -> (n: usize)
    ensures
        n == suggestion_of(status, current_nodes, min_nodes, max_nodes),
        status == MemoryStatus::Safe ==> n == max_nodes,
        status != MemoryStatus::Safe && current_nodes >= min_nodes + severity(status) ==> n
            + severity(status) == current_nodes,
        status != MemoryStatus::Safe && current_nodes < min_nodes + severity(status) ==> n
            == min_nodes,
{
    let lowered = match status {
        MemoryStatus::Safe => {
            return max_nodes;
        },
        MemoryStatus::Warning => current_nodes.saturating_sub(1),
        MemoryStatus::Danger => current_nodes.saturating_sub(2),
        MemoryStatus::Emergency => current_nodes.saturating_sub(3),
    };
    if lowered >= min_nodes {
        lowered
    } else {
        min_nodes
    }
}

/// How severe a status is, from 0 (safe) to 3 (emergency).
pub open spec fn severity(s: MemoryStatus) -> int {
    match s {
        MemoryStatus::Safe => 0,
        MemoryStatus::Warning => 1,
        MemoryStatus::Danger => 2,
        MemoryStatus::Emergency => 3,
    }
}

/// Less free memory on the same machine never gives a milder status.
pub proof fn lemma_status_monotone(total: u64, more_available: u64, less_available: u64)
    requires
        less_available <= more_available,
    ensures
        severity(status_of(total, more_available)) <= severity(status_of(total, less_available)),
{
}

/// When the current count does not exceed the maximum and the minimum does
/// not exceed it either, the suggestion lies between the two.
pub proof fn lemma_suggestion_within_bounds(
    status: MemoryStatus,
    current_nodes: usize,
    min_nodes: usize,
    max_nodes: usize,
)
    requires
        min_nodes <= max_nodes,
        current_nodes <= max_nodes,
    ensures
        min_nodes <= suggestion_of(status, current_nodes, min_nodes, max_nodes) <= max_nodes,
{
}

/// Under memory pressure the suggestion never exceeds the current count,
/// unless the minimum asks for more.
pub proof fn lemma_pressure_never_grows(
    status: MemoryStatus,
    current_nodes: usize,
    min_nodes: usize,
    max_nodes: usize,
)
    requires
        status != MemoryStatus::Safe,
        min_nodes <= current_nodes,
    ensures
        suggestion_of(status, current_nodes, min_nodes, max_nodes) <= current_nodes,
{
}

/// Under memory pressure the suggestion takes exactly as many nodes away
/// as the status is severe (one at warning, two at danger, three at
/// emergency) when that leaves at least the minimum, and is the minimum
/// otherwise; when memory is safe it is the maximum.
pub proof fn lemma_pressure_step(
    status: MemoryStatus,
    current_nodes: usize,
    min_nodes: usize,
    max_nodes: usize,
)
    ensures
        status == MemoryStatus::Safe ==> suggestion_of(status, current_nodes, min_nodes, max_nodes)
            == max_nodes,
        status != MemoryStatus::Safe && current_nodes >= min_nodes + severity(status) ==> suggestion_of(
            status,
            current_nodes,
            min_nodes,
            max_nodes,
        ) + severity(status) == current_nodes,
        status != MemoryStatus::Safe && current_nodes < min_nodes + severity(status) ==> suggestion_of(
            status,
            current_nodes,
            min_nodes,
            max_nodes,
        ) == min_nodes,
        status != MemoryStatus::Safe ==> suggestion_of(status, current_nodes, min_nodes, max_nodes)
            >= min_nodes && suggestion_of(status, current_nodes, min_nodes, max_nodes) + severity(
            status,
        ) >= current_nodes,
{
}

} // verus!
