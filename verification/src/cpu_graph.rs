//! The CPU usage graph: reading the aggregate line of `/proc/stat`, and the
//! JSON lines the CPU modules print.

use vstd::prelude::*;
use crate::text::{words, parse_i32_spec, split_words, parse_i32, signed_decimal, format_i64};

verus! {

/// The fields of the aggregate `cpu` line of `/proc/stat` that the module uses:
/// the second, fourth and fifth words.
pub struct ProcStat {
    pub user: i32,
    pub system: i32,
    pub idle: i32,
}

/// The fields of a `/proc/stat` line: words 1, 3 and 4 parsed as `i32`, or
/// `None` when a word is missing or does not parse.
pub open spec fn proc_stat_of(line: Seq<char>) -> Option<ProcStat> {
    let ws = words(line);
    if ws.len() > 4 {
        match (parse_i32_spec(ws[1]), parse_i32_spec(ws[3]), parse_i32_spec(ws[4])) {
            (Some(user), Some(system), Some(idle)) => Some(ProcStat { user, system, idle }),
            _ => None,
        }
    } else {
        None
    }
}

/// Reads the fields of a `/proc/stat` line.
pub fn parse_proc_stat(line: &str) -> (res: Option<ProcStat>)
    ensures
        res == proc_stat_of(line@),
{
    let ws = split_words(line);
    if ws.len() > 4 {
        assert(ws@[1]@ == words(line@)[1]);
        assert(ws@[3]@ == words(line@)[3]);
        assert(ws@[4]@ == words(line@)[4]);
        let user = parse_i32(ws[1].as_str());
        let system = parse_i32(ws[3].as_str());
        let idle = parse_i32(ws[4].as_str());
        match (user, system, idle) {
            (Some(user), Some(system), Some(idle)) => Some(ProcStat { user, system, idle }),
            _ => None,
        }
    } else {
        None
    }
}

/// The time spent busy (user and system) and in all (user, system and idle)
/// between two readings.
pub open spec fn busy_and_total(first: ProcStat, second: ProcStat) -> (int, int) {
    let user = second.user - first.user;
    let system = second.system - first.system;
    let idle = second.idle - first.idle;
    (user + system, user + system + idle)
}

/// The `i32` arithmetic of the usage computation does not overflow.
pub open spec fn busy_and_total_fit(first: ProcStat, second: ProcStat) -> bool {
    let user = second.user - first.user;
    let system = second.system - first.system;
    let idle = second.idle - first.idle;
    &&& i32::MIN <= user <= i32::MAX
    &&& i32::MIN <= system <= i32::MAX
    &&& i32::MIN <= idle <= i32::MAX
    &&& i32::MIN <= user + system <= i32::MAX
    &&& i32::MIN <= user + system + idle <= i32::MAX
}

/// The busy and total time between two readings; the usage in percent is
/// `100 * busy / total`.
pub fn cpu_busy_and_total(first: &ProcStat, second: &ProcStat) -> (res: (i32, i32))
    requires
        busy_and_total_fit(*first, *second),
    ensures
        res.0 == busy_and_total(*first, *second).0,
        res.1 == busy_and_total(*first, *second).1,
{
    let user = second.user - first.user;
    let system = second.system - first.system;
    let idle = second.idle - first.idle;
    (user + system, user + system + idle)
}

/// The line the CPU module prints: the chart as text and tooltip, the average
/// usage and the per-core listing as alternative text, the latest usage as
/// percentage.
pub open spec fn cpu_graph_line(chart: Seq<char>, avg: i32, cores: Seq<char>, pct: i32) -> Seq<char> {
    "{\"text\":\""@ + chart + "\",\"tooltip\":\""@ + chart
        + "\",\"class\": \"\",\"alt\":\"Avg.Usage: "@ + signed_decimal(avg as int)
        + "%\\n--------------\\n"@ + cores + "\",\"percentage\":"@ + signed_decimal(pct as int)
        + "}"@
}

/// Builds the line the CPU module prints.
pub fn cpu_graph_output(chart: &str, avg: i32, cores: &str, pct: i32) -> (res: String)
    ensures
        res@ == cpu_graph_line(chart@, avg, cores@, pct),
{
    let mut line = String::new();
    line.append("{\"text\":\"");
    line.append(chart);
    line.append("\",\"tooltip\":\"");
    line.append(chart);
    line.append("\",\"class\": \"\",\"alt\":\"Avg.Usage: ");
    line.append(format_i64(avg as i64).as_str());
    line.append("%\\n--------------\\n");
    line.append(cores);
    line.append("\",\"percentage\":");
    line.append(format_i64(pct as i64).as_str());
    line.append("}");
    line
}

/// The line the first CPU module printed: the chart as text, tooltip and
/// alternative text, and the latest usage as percentage.
pub open spec fn simple_graph_line(chart: Seq<char>, pct: i32) -> Seq<char> {
    "{\"text\":\""@ + chart + "\",\"tooltip\":\""@ + chart + "\",\"class\": \"\",\"alt\":\""@
        + chart + "\",\"percentage\":"@ + signed_decimal(pct as int) + "}"@
}

/// Builds the line the first CPU module printed.
pub fn simple_graph_output(chart: &str, pct: i32) -> (res: String)
    ensures
        res@ == simple_graph_line(chart@, pct),
{
    let mut line = String::new();
    line.append("{\"text\":\"");
    line.append(chart);
    line.append("\",\"tooltip\":\"");
    line.append(chart);
    line.append("\",\"class\": \"\",\"alt\":\"");
    line.append(chart);
    line.append("\",\"percentage\":");
    line.append(format_i64(pct as i64).as_str());
    line.append("}");
    line
}

} // verus!
