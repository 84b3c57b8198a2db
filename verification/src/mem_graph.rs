//! The memory usage graph: the figures in megabytes and the JSON line.

use vstd::prelude::*;
use crate::text::{signed_decimal, format_i64};

verus! {

/// A byte count in megabytes, as the module computes it: `(bytes / 1000000) as i32`.
pub fn megabytes(bytes: u64) -> (res: i32)
    ensures
        res == ((bytes / 1000000) as i32),
{
    (bytes / 1000000) as i32
}

/// The line the memory module prints.
pub open spec fn mem_graph_line(
    chart: Seq<char>,
    avg: i32,
    used_bytes: u64,
    avg_mb: i32,
    total_bytes: u64,
    pct: i32,
) -> Seq<char> {
    "{\"text\":\""@ + chart + "\",\"tooltip\":\""@ + chart
        + "\",\"class\": \"\",\"alt\":\"Avg.Usage: "@ + signed_decimal(avg as int)
        + "%\\rUsed     : "@ + signed_decimal(((used_bytes / 1000000) as i32) as int)
        + " MB\\rAverage  : "@ + signed_decimal(avg_mb as int) + " MB\\rTotal    : "@
        + signed_decimal(((total_bytes / 1000000) as i32) as int) + " MB\",\"percentage\":"@
        + signed_decimal(pct as int) + "}"@
}

/// Builds the line the memory module prints.
pub fn mem_graph_output(
    chart: &str,
    avg: i32,
    used_bytes: u64,
    avg_mb: i32,
    total_bytes: u64,
    pct: i32,
) -> (res: String)
    ensures
        res@ == mem_graph_line(chart@, avg, used_bytes, avg_mb, total_bytes, pct),
{
    let mut line = String::new();
    line.append("{\"text\":\"");
    line.append(chart);
    line.append("\",\"tooltip\":\"");
    line.append(chart);
    line.append("\",\"class\": \"\",\"alt\":\"Avg.Usage: ");
    line.append(format_i64(avg as i64).as_str());
    line.append("%\\rUsed     : ");
    line.append(format_i64(megabytes(used_bytes) as i64).as_str());
    line.append(" MB\\rAverage  : ");
    line.append(format_i64(avg_mb as i64).as_str());
    line.append(" MB\\rTotal    : ");
    line.append(format_i64(megabytes(total_bytes) as i64).as_str());
    line.append(" MB\",\"percentage\":");
    line.append(format_i64(pct as i64).as_str());
    line.append("}");
    line
}

} // verus!
