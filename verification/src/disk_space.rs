//! The disk space graph: the per-disk listing, the average free space, and the
//! JSON line.

use vstd::prelude::*;
use crate::text::{decimal, signed_decimal, format_i64, string_views, occurs_in};
use crate::tooltip::disk_space_line;

verus! {

/// The space figures of one disk.
pub struct DiskSpace {
    pub name: String,
    pub available: u64,
    pub total: u64,
}

/// The free space of all the disks together.
pub open spec fn total_available(ds: Seq<DiskSpace>) -> int
    decreases ds.len(),
{
    if ds.len() == 0 {
        0
    } else {
        total_available(ds.drop_last()) + ds.last().available
    }
}

/// The listing line of a disk: `NAME-AVAILABLE-TOTAL`.
pub open spec fn disk_line(d: DiskSpace) -> Seq<char> {
    d.name@ + seq!['-'] + decimal(d.available as nat) + seq!['-'] + decimal(d.total as nat)
}

proof fn lemma_available_prefix_le(ds: Seq<DiskSpace>, n: int)
    requires
        0 <= n <= ds.len(),
    ensures
        0 <= total_available(ds.take(n)) <= total_available(ds),
    decreases ds.len(),
{
    if n == ds.len() {
        assert(ds.take(n) == ds);
        lemma_available_nonneg(ds);
    } else {
        lemma_available_prefix_le(ds.drop_last(), n);
        assert(ds.drop_last().take(n) == ds.take(n));
    }
}

proof fn lemma_available_nonneg(ds: Seq<DiskSpace>)
    ensures
        total_available(ds) >= 0,
    decreases ds.len(),
{
    if ds.len() > 0 {
        lemma_available_nonneg(ds.drop_last());
    }
}

/// The average free space of the disks, and their listing lines. There must be
/// a disk (the average divides by their number), and the free space must sum
/// to a `u64`.
pub fn get_disks_available_space(req_disks: &Vec<DiskSpace>) -> (res: (u64, Vec<String>))
    requires
        req_disks@.len() > 0,
        total_available(req_disks@) <= u64::MAX,
    ensures
        res.0 == total_available(req_disks@) / (req_disks@.len() as int),
        string_views(res.1@) == req_disks@.map_values(|d: DiskSpace| disk_line(d)),
{
    let mut lines: Vec<String> = Vec::new();
    let mut disk_tot: u64 = 0;
    let mut i: usize = 0;
    while i < req_disks.len()
        invariant
            i <= req_disks.len(),
            total_available(req_disks@) <= u64::MAX,
            disk_tot == total_available(req_disks@.take(i as int)),
            string_views(lines@) == req_disks@.take(i as int).map_values(
                |d: DiskSpace| disk_line(d),
            ),
        decreases req_disks.len() - i,
    {
        assert(req_disks@.take(i + 1).drop_last() == req_disks@.take(i as int));
        proof {
            lemma_available_prefix_le(req_disks@, i + 1);
        }
        let d = &req_disks[i];
        let line = disk_space_line(d.name.as_str(), d.available, d.total);
        let ghost before = lines@;
        lines.push(line);
        assert(string_views(lines@) == string_views(before).push(line@));
        assert(req_disks@.take(i + 1).map_values(|d: DiskSpace| disk_line(d)) == req_disks@.take(
            i as int,
        ).map_values(|d: DiskSpace| disk_line(d)).push(disk_line(*d)));
        disk_tot += d.available;
        i += 1;
    }
    assert(req_disks@.take(req_disks.len() as int) == req_disks@);
    (disk_tot / req_disks.len() as u64, lines)
}

/// The line the disk space module prints; `avg` is the average free space as
/// the module writes it.
pub open spec fn disk_space_graph_line(
    chart: Seq<char>,
    avg: Seq<char>,
    disks: Seq<char>,
    pct: i32,
) -> Seq<char> {
    "{\"text\":\""@ + chart + "\",\"tooltip\":\""@ + chart
        + "\",\"class\": \"\",\"alt\":\"Avg.Usage: "@ + avg + "%\\n--------------\\n"@ + disks
        + "\",\"percentage\":"@ + signed_decimal(pct as int) + "}"@
}

/// The Avg.Usage field of the disk space line is the average text as given:
/// it appears there verbatim, and two lines that differ only in the average
/// text differ.
pub proof fn lemma_disk_space_line_shows_avg(chart: Seq<char>, avg: Seq<char>, other_avg: Seq<char>, disks: Seq<char>, pct: i32)
    ensures
        occurs_in(
            "\",\"class\": \"\",\"alt\":\"Avg.Usage: "@ + avg + "%\\n--------------\\n"@,
            disk_space_graph_line(chart, avg, disks, pct),
        ),
        avg != other_avg ==> disk_space_graph_line(chart, avg, disks, pct) != disk_space_graph_line(
            chart,
            other_avg,
            disks,
            pct,
        ),
{
    let head = "{\"text\":\""@ + chart + "\",\"tooltip\":\""@ + chart;
    let label = "\",\"class\": \"\",\"alt\":\"Avg.Usage: "@;
    let tail = "%\\n--------------\\n"@ + disks + "\",\"percentage\":"@ + signed_decimal(pct as int)
        + "}"@;
    let line = disk_space_graph_line(chart, avg, disks, pct);
    let other = disk_space_graph_line(chart, other_avg, disks, pct);
    assert(head + (label + avg + "%\\n--------------\\n"@) + (disks + "\",\"percentage\":"@
        + signed_decimal(pct as int) + "}"@) =~= line);
    assert(line =~= (head + label) + avg + tail);
    assert(other =~= (head + label) + other_avg + tail);
    if avg != other_avg && line == other {
        let a: int = (head + label).len() as int;
        assert(avg.len() == other_avg.len());
        assert(line.subrange(a, a + avg.len()) =~= avg);
        assert(other.subrange(a, a + other_avg.len()) =~= other_avg);
    }
}

/// Builds the line the disk space module prints.
pub fn disk_space_graph_output(chart: &str, avg: &str, disks: &str, pct: i32) -> (res: String)
    ensures
        res@ == disk_space_graph_line(chart@, avg@, disks@, pct),
{
    let mut line = String::new();
    line.append("{\"text\":\"");
    line.append(chart);
    line.append("\",\"tooltip\":\"");
    line.append(chart);
    line.append("\",\"class\": \"\",\"alt\":\"Avg.Usage: ");
    line.append(avg);
    line.append("%\\n--------------\\n");
    line.append(disks);
    line.append("\",\"percentage\":");
    line.append(format_i64(pct as i64).as_str());
    line.append("}");
    line
}

} // verus!
