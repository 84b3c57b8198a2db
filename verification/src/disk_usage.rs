//! The disk throughput graph: read and write rates in MBps, charted above and
//! below a middle line on a shared scale.

use vstd::prelude::*;
use crate::chart::{views, scaled_bars, scaled_in_range, scaled_level, push_scaled_bars, lemma_scaled_bars_concat};
use crate::metrics::{seq_sum, peak, first_fit, sum_u64, peak_u64, lemma_peak_bounds, lemma_sum_below};
use crate::net_graph::average;
use crate::text::{decimal, format_u64, occurs_in};
use crate::window::{pushed_window, push_reading};

verus! {

/// The bytes one process read from and wrote to disk since the last refresh.
pub struct DiskIo {
    pub read_bytes: u64,
    pub written_bytes: u64,
}

/// The bytes all processes read (`read`) or wrote (otherwise).
pub open spec fn io_bytes(ps: Seq<DiskIo>, read: bool) -> int
    decreases ps.len(),
{
    if ps.len() == 0 {
        0
    } else {
        io_bytes(ps.drop_last(), read) + if read {
            ps.last().read_bytes as int
        } else {
            ps.last().written_bytes as int
        }
    }
}

/// A byte count over `polling_secs` seconds in MB per second:
/// `(total / polling_secs as u64) / 1000000`.
pub open spec fn rate_mbps(total: int, polling_secs: i32) -> int {
    (total / ((polling_secs as u64) as int)) / 1000000
}

proof fn lemma_io_prefix_le(ps: Seq<DiskIo>, read: bool, n: int)
    requires
        0 <= n <= ps.len(),
    ensures
        0 <= io_bytes(ps.take(n), read) <= io_bytes(ps, read),
    decreases ps.len(),
{
    if n == ps.len() {
        assert(ps.take(n) == ps);
        lemma_io_nonneg(ps, read);
    } else {
        lemma_io_prefix_le(ps.drop_last(), read, n);
        assert(ps.drop_last().take(n) == ps.take(n));
    }
}

proof fn lemma_io_nonneg(ps: Seq<DiskIo>, read: bool)
    ensures
        io_bytes(ps, read) >= 0,
    decreases ps.len(),
{
    if ps.len() > 0 {
        lemma_io_nonneg(ps.drop_last(), read);
    }
}

/// The read and write rates of all processes together, in MBps.
pub fn get_disks_read_and_writen_bytes(req_sys: &Vec<DiskIo>, polling_secs: &i32) -> (res: (
    u64,
    u64,
))
    requires
        *polling_secs != 0,
        io_bytes(req_sys@, true) <= u64::MAX,
        io_bytes(req_sys@, false) <= u64::MAX,
    ensures
        res.0 == rate_mbps(io_bytes(req_sys@, true), *polling_secs),
        res.1 == rate_mbps(io_bytes(req_sys@, false), *polling_secs),
{
    let mut read_bytes: u64 = 0;
    let mut written_bytes: u64 = 0;
    let mut i: usize = 0;
    while i < req_sys.len()
        invariant
            i <= req_sys.len(),
            io_bytes(req_sys@, true) <= u64::MAX,
            io_bytes(req_sys@, false) <= u64::MAX,
            read_bytes == io_bytes(req_sys@.take(i as int), true),
            written_bytes == io_bytes(req_sys@.take(i as int), false),
        decreases req_sys.len() - i,
    {
        assert(req_sys@.take(i + 1).drop_last() == req_sys@.take(i as int));
        proof {
            lemma_io_prefix_le(req_sys@, true, i + 1);
            lemma_io_prefix_le(req_sys@, false, i + 1);
        }
        read_bytes += req_sys[i].read_bytes;
        written_bytes += req_sys[i].written_bytes;
        i += 1;
    }
    assert(req_sys@.take(req_sys.len() as int) == req_sys@);
    let p = *polling_secs;
    let secs = p as u64;
    assert(secs != 0) by (bit_vector)
        requires
            secs == p as u64,
            p != 0,
    ;
    read_bytes = read_bytes / secs;
    written_bytes = written_bytes / secs;
    (read_bytes / 1000000, written_bytes / 1000000)
}

/// The scales the throughput chart may use, in MBps.
pub open spec fn disk_limits() -> Seq<u64> {
    seq![5u64, 15, 30, 50, 75, 100, 150, 1000, 2000, 3000, 6000, 10000, 20000]
}

/// The scale of the throughput chart: the first limit that the highest reading
/// fits under, or the highest reading itself when it fits under none.
pub open spec fn disk_scale_of(highest: u64) -> u64 {
    match first_fit(disk_limits(), highest) {
        Some(limit) => limit,
        None => highest,
    }
}

/// Picks the scale of the throughput chart for its highest reading.
pub fn disk_scale(highest: u64) -> (res: u64)
    ensures
        res == disk_scale_of(highest),
{
    reveal_with_fuel(first_fit, 14);
    if highest % 5 == highest {
        5
    } else if highest % 15 == highest {
        15
    } else if highest % 30 == highest {
        30
    } else if highest % 50 == highest {
        50
    } else if highest % 75 == highest {
        75
    } else if highest % 100 == highest {
        100
    } else if highest % 150 == highest {
        150
    } else if highest % 1000 == highest {
        1000
    } else if highest % 2000 == highest {
        2000
    } else if highest % 3000 == highest {
        3000
    } else if highest % 6000 == highest {
        6000
    } else if highest % 10000 == highest {
        10000
    } else if highest % 20000 == highest {
        20000
    } else {
        highest
    }
}

/// The throughput scale is the smallest limit above the highest reading; from
/// 20000 up it is the highest reading itself. Either way it is never below it.
pub proof fn lemma_disk_scale(highest: u64)
    ensures
        highest <= disk_scale_of(highest),
        highest < 20000 ==> highest < disk_scale_of(highest) && disk_limits().contains(
            disk_scale_of(highest),
        ),
        highest >= 20000 ==> disk_scale_of(highest) == highest,
        forall|i: int|
            0 <= i < disk_limits().len() && highest < disk_limits()[i] ==> disk_scale_of(highest)
                <= disk_limits()[i],
{
    reveal_with_fuel(first_fit, 14);
    let s = disk_scale_of(highest);
    if highest < 20000 {
        if s == 5 {
            assert(disk_limits()[0] == s);
        } else if s == 15 {
            assert(disk_limits()[1] == s);
        } else if s == 30 {
            assert(disk_limits()[2] == s);
        } else if s == 50 {
            assert(disk_limits()[3] == s);
        } else if s == 75 {
            assert(disk_limits()[4] == s);
        } else if s == 100 {
            assert(disk_limits()[5] == s);
        } else if s == 150 {
            assert(disk_limits()[6] == s);
        } else if s == 1000 {
            assert(disk_limits()[7] == s);
        } else if s == 2000 {
            assert(disk_limits()[8] == s);
        } else if s == 3000 {
            assert(disk_limits()[9] == s);
        } else if s == 6000 {
            assert(disk_limits()[10] == s);
        } else if s == 10000 {
            assert(disk_limits()[11] == s);
        } else {
            assert(disk_limits()[12] == s);
        }
    }
    assert forall|i: int|
        0 <= i < disk_limits().len() && highest < disk_limits()[i] implies disk_scale_of(highest)
        <= disk_limits()[i] by {
        if i == 0 {
        } else if i == 1 {
        } else if i == 2 {
        } else if i == 3 {
        } else if i == 4 {
        } else if i == 5 {
        } else if i == 6 {
        } else if i == 7 {
        } else if i == 8 {
        } else if i == 9 {
        } else if i == 10 {
        } else if i == 11 {
        } else {
        }
    }
}

/// The throughput chart: read bars, a line break, write bars; each row takes
/// its glyph level from its own number of glyphs.
pub open spec fn disk_chart(
    up: Seq<u64>,
    down: Seq<u64>,
    max: u64,
    up_symbols: Seq<Seq<char>>,
    down_symbols: Seq<Seq<char>>,
    up_colors: Seq<Seq<char>>,
    down_colors: Seq<Seq<char>>,
) -> Seq<char> {
    scaled_bars(up, max, (up_symbols.len() - 1) as u64, up_symbols, up_colors) + "\\r"@
        + scaled_bars(down, max, (down_symbols.len() - 1) as u64, down_symbols, down_colors)
}

/// Draws the throughput chart of the read and write histories on the scale `max_value`.
pub fn get_double_chart(
    up_stats_set: &Vec<u64>,
    down_stats_set: &Vec<u64>,
    max_value: &u64,
    up_symbols: &[&str],
    down_symbols: &[&str],
    up_colors: &[&str],
    down_colors: &[&str],
) -> (res: String)
    requires
        up_stats_set@.len() > 0 ==> *max_value > 0 && up_symbols@.len() >= 1,
        down_stats_set@.len() > 0 ==> *max_value > 0 && down_symbols@.len() >= 1,
        scaled_in_range(
            up_stats_set@,
            *max_value,
            (up_symbols@.len() - 1) as u64,
            up_symbols@.len(),
            up_colors@.len(),
        ),
        scaled_in_range(
            down_stats_set@,
            *max_value,
            (down_symbols@.len() - 1) as u64,
            down_symbols@.len(),
            down_colors@.len(),
        ),
    ensures
        res@ == disk_chart(
            up_stats_set@,
            down_stats_set@,
            *max_value,
            views(up_symbols@),
            views(down_symbols@),
            views(up_colors@),
            views(down_colors@),
        ),
{
    let mut chart = String::new();
    if up_stats_set.len() > 0 {
        push_scaled_bars(
            &mut chart,
            up_stats_set,
            *max_value,
            up_symbols.len() as u64 - 1,
            up_symbols,
            up_colors,
        );
    }
    chart.append("\\r");
    if down_stats_set.len() > 0 {
        push_scaled_bars(
            &mut chart,
            down_stats_set,
            *max_value,
            down_symbols.len() as u64 - 1,
            down_symbols,
            down_colors,
        );
    }
    chart
}

/// The highest reading of both histories, and at least 1.
pub open spec fn disk_highest(read: Seq<u64>, write: Seq<u64>) -> u64 {
    let h = if peak(read) > 1 {
        peak(read)
    } else {
        1
    };
    if peak(write) > h {
        peak(write)
    } else {
        h
    }
}

/// The line the throughput module prints for its histories.
pub open spec fn disk_usage_line(
    read: Seq<u64>,
    write: Seq<u64>,
    up_symbols: Seq<Seq<char>>,
    down_symbols: Seq<Seq<char>>,
    up_colors: Seq<Seq<char>>,
    down_colors: Seq<Seq<char>>,
) -> Seq<char> {
    let max = disk_scale_of(disk_highest(read, write));
    let chart = disk_chart(read, write, max, up_symbols, down_symbols, up_colors, down_colors);
    let read_avg = average(read);
    let write_avg = average(write);
    "{\"text\":\""@ + chart + "\",\"tooltip\":\""@ + chart
        + "\",\"class\":\"\",\"alt\":\"Read      : "@ + decimal(read.last() as nat)
        + " MBps\\rWrite     : "@ + decimal(write.last() as nat) + " MBps\\rRange     : 0-"@
        + decimal(max as nat) + " MBps\\rAvg.Read  : "@ + decimal(read_avg as nat)
        + " MBps\\rAvg.Write : "@ + decimal(write_avg as nat) + " MBps\",\"percentage\":"@
        + decimal(((read_avg + write_avg) / 2) as nat) + "}"@
}

/// The disk line draws its chart and states its range on one scale: the least
/// of the limits that every reading lies below. Given any such limit `r`, the
/// line holds the chart drawn on `r`, and its Range figure is `r`.
pub proof fn lemma_disk_line_scale(
    read: Seq<u64>,
    write: Seq<u64>,
    r: u64,
    up_symbols: Seq<Seq<char>>,
    down_symbols: Seq<Seq<char>>,
    up_colors: Seq<Seq<char>>,
    down_colors: Seq<Seq<char>>,
)
    requires
        disk_limits().contains(r),
        forall|i: int| 0 <= i < read.len() ==> read[i] < r,
        forall|i: int| 0 <= i < write.len() ==> write[i] < r,
        forall|j: int|
            0 <= j < disk_limits().len() && (forall|i: int| 0 <= i < read.len() ==> read[i] < disk_limits()[j])
                && (forall|i: int| 0 <= i < write.len() ==> write[i] < disk_limits()[j]) ==> r
                <= #[trigger] disk_limits()[j],
    ensures
        occurs_in(
            "{\"text\":\""@ + disk_chart(read, write, r, up_symbols, down_symbols, up_colors, down_colors)
                + "\",\"tooltip\":\""@,
            disk_usage_line(read, write, up_symbols, down_symbols, up_colors, down_colors),
        ),
        occurs_in(
            " MBps\\rRange     : 0-"@ + decimal(r as nat) + " MBps\\rAvg.Read  : "@,
            disk_usage_line(read, write, up_symbols, down_symbols, up_colors, down_colors),
        ),
{
    assert forall|j: int| 0 <= j < disk_limits().len() implies 5 <= #[trigger] disk_limits()[j] <= 20000 by {
        if j == 0 {
        } else if j == 1 {
        } else if j == 2 {
        } else if j == 3 {
        } else if j == 4 {
        } else if j == 5 {
        } else if j == 6 {
        } else if j == 7 {
        } else if j == 8 {
        } else if j == 9 {
        } else if j == 10 {
        } else if j == 11 {
        } else {
        }
    }
    let i0 = choose|i: int| 0 <= i < disk_limits().len() && disk_limits()[i] == r;
    assert(5 <= disk_limits()[i0] <= 20000);
    lemma_peak_bounds(read);
    lemma_peak_bounds(write);
    assert(peak(read) < r) by {
        if read.len() > 0 {
            let k = choose|i: int| 0 <= i < read.len() && read[i] == peak(read);
            assert(read[k] < r);
        }
    }
    assert(peak(write) < r) by {
        if write.len() > 0 {
            let k = choose|i: int| 0 <= i < write.len() && write[i] == peak(write);
            assert(write[k] < r);
        }
    }
    let h = disk_highest(read, write);
    assert(h < r);
    let s = disk_scale_of(h);
    lemma_disk_scale(h);
    assert(s <= r) by {
        assert(h < disk_limits()[i0]);
    }
    let j0 = choose|j: int| 0 <= j < disk_limits().len() && disk_limits()[j] == s;
    assert(r <= disk_limits()[j0]) by {
        assert forall|i: int| 0 <= i < read.len() implies read[i] < disk_limits()[j0] by {
            assert(read[i] <= peak(read));
        }
        assert forall|i: int| 0 <= i < write.len() implies write[i] < disk_limits()[j0] by {
            assert(write[i] <= peak(write));
        }
    }
    assert(s == r);
    let chart = disk_chart(read, write, r, up_symbols, down_symbols, up_colors, down_colors);
    let read_avg = average(read);
    let write_avg = average(write);
    let line = disk_usage_line(read, write, up_symbols, down_symbols, up_colors, down_colors);
    let head = "{\"text\":\""@ + chart + "\",\"tooltip\":\""@;
    let middle = chart + "\",\"class\":\"\",\"alt\":\"Read      : "@ + decimal(read.last() as nat)
        + " MBps\\rWrite     : "@ + decimal(write.last() as nat);
    let range = " MBps\\rRange     : 0-"@ + decimal(r as nat) + " MBps\\rAvg.Read  : "@;
    let tail = decimal(read_avg as nat) + " MBps\\rAvg.Write : "@ + decimal(write_avg as nat)
        + " MBps\",\"percentage\":"@ + decimal(((read_avg + write_avg) / 2) as nat) + "}"@;
    assert(seq![] + head + (middle + range + tail) =~= line);
    assert((head + middle) + range + tail =~= line);
}

/// The state of the throughput module: the read and write histories.
pub struct DiskUsageGraph {
    pub read_stats: Vec<u64>,
    pub write_stats: Vec<u64>,
    pub history: usize,
}

impl DiskUsageGraph {
    /// Both histories hold `history` readings.
    pub open spec fn wf(&self) -> bool {
        &&& self.read_stats@.len() == self.history
        &&& self.write_stats@.len() == self.history
        &&& 0 < self.history
    }

    /// The module at start: `history` zero readings in each history.
    pub fn new(history: usize) -> (g: DiskUsageGraph)
        requires
            0 < history,
        ensures
            g.wf(),
            g.history == history,
            g.read_stats@ == Seq::new(history as nat, |i: int| 0u64),
            g.write_stats@ == Seq::new(history as nat, |i: int| 0u64),
    {
        let mut read: Vec<u64> = Vec::new();
        let mut write: Vec<u64> = Vec::new();
        let mut i: usize = 0;
        while i < history
            invariant
                i <= history,
                read@ == Seq::new(i as nat, |j: int| 0u64),
                write@ == Seq::new(i as nat, |j: int| 0u64),
            decreases history - i,
        {
            read.push(0);
            write.push(0);
            i += 1;
        }
        DiskUsageGraph { read_stats: read, write_stats: write, history }
    }

    /// Records one read and one write reading.
    pub fn record(&mut self, read: u64, write: u64)
        requires
            old(self).wf(),
        ensures
            final(self).wf(),
            final(self).history == old(self).history,
            final(self).read_stats@ == pushed_window(
                old(self).read_stats@,
                old(self).history as nat,
                read,
            ),
            final(self).write_stats@ == pushed_window(
                old(self).write_stats@,
                old(self).history as nat,
                write,
            ),
    {
        let history = self.history;
        push_reading(&mut self.read_stats, history, read);
        push_reading(&mut self.write_stats, history, write);
    }

    /// The highest reading of both histories, at least 1.
    pub fn highest(&self) -> (res: u64)
        ensures
            res == disk_highest(self.read_stats@, self.write_stats@),
    {
        let mut highest: u64 = 1;
        let max_read = peak_u64(&self.read_stats);
        let max_write = peak_u64(&self.write_stats);
        if max_read > highest {
            highest = max_read;
        }
        if max_write > highest {
            highest = max_write;
        }
        highest
    }

    /// The scale of the chart.
    pub fn scale(&self) -> (res: u64)
        ensures
            res == disk_scale_of(disk_highest(self.read_stats@, self.write_stats@)),
    {
        disk_scale(self.highest())
    }

    /// The JSON line for the current histories. Every reading times 100, and
    /// each history's sum, must fit in a `u64`: the module's arithmetic
    /// does not check for overflow.
    pub fn output_line(
        &self,
        up_symbols: &[&str],
        down_symbols: &[&str],
        up_colors: &[&str],
        down_colors: &[&str],
    ) -> (res: String)
        requires
            self.wf(),
            100 * disk_highest(self.read_stats@, self.write_stats@) <= u64::MAX,
            seq_sum(self.read_stats@) <= u64::MAX,
            seq_sum(self.write_stats@) <= u64::MAX,
            up_symbols@.len() >= 1,
            down_symbols@.len() >= 1,
            100 * up_symbols@.len() <= u64::MAX,
            100 * down_symbols@.len() <= u64::MAX,
            up_colors@.len() >= up_symbols@.len(),
            down_colors@.len() >= down_symbols@.len(),
        ensures
            res@ == disk_usage_line(
                self.read_stats@,
                self.write_stats@,
                views(up_symbols@),
                views(down_symbols@),
                views(up_colors@),
                views(down_colors@),
            ),
    {
        let max = self.scale();
        let ghost highest = disk_highest(self.read_stats@, self.write_stats@);
        proof {
            lemma_disk_scale(highest);
            lemma_peak_bounds(self.read_stats@);
            lemma_peak_bounds(self.write_stats@);
            lemma_at_scale_in_range(
                self.read_stats@,
                max,
                (up_symbols@.len() - 1) as u64,
                up_symbols@.len(),
                up_colors@.len(),
            );
            lemma_at_scale_in_range(
                self.write_stats@,
                max,
                (down_symbols@.len() - 1) as u64,
                down_symbols@.len(),
                down_colors@.len(),
            );
        }
        let chart = get_double_chart(
            &self.read_stats,
            &self.write_stats,
            &max,
            up_symbols,
            down_symbols,
            up_colors,
            down_colors,
        );
        let n = self.history as u64;
        let read_sum = sum_u64(&self.read_stats);
        let write_sum = sum_u64(&self.write_stats);
        let read_avg = read_sum / n;
        let write_avg = write_sum / n;
        proof {
            lemma_sum_below(self.read_stats@, highest + 1);
            lemma_sum_below(self.write_stats@, highest + 1);
        }
        assert(read_avg <= highest && write_avg <= highest) by (nonlinear_arith)
            requires
                n > 0,
                read_sum < n * (highest + 1),
                write_sum < n * (highest + 1),
                read_avg == read_sum / n,
                write_avg == write_sum / n,
        ;
        let last_read = self.read_stats[self.history - 1];
        let last_write = self.write_stats[self.history - 1];
        let mut line = String::new();
        line.append("{\"text\":\"");
        line.append(chart.as_str());
        line.append("\",\"tooltip\":\"");
        line.append(chart.as_str());
        line.append("\",\"class\":\"\",\"alt\":\"Read      : ");
        line.append(format_u64(last_read).as_str());
        line.append(" MBps\\rWrite     : ");
        line.append(format_u64(last_write).as_str());
        line.append(" MBps\\rRange     : 0-");
        line.append(format_u64(max).as_str());
        line.append(" MBps\\rAvg.Read  : ");
        line.append(format_u64(read_avg).as_str());
        line.append(" MBps\\rAvg.Write : ");
        line.append(format_u64(write_avg).as_str());
        line.append(" MBps\",\"percentage\":");
        line.append(format_u64((read_avg + write_avg) / 2).as_str());
        line.append("}");
        line
    }
}

/// Readings no higher than a scale whose hundredfold fits in a `u64` are
/// charted without overflow, on a glyph no higher than `steps`.
proof fn lemma_at_scale_in_range(stats: Seq<u64>, max: u64, steps: u64, n_symbols: nat, n_colors: nat)
    requires
        0 < max,
        100 * max <= u64::MAX,
        forall|i: int| 0 <= i < stats.len() ==> stats[i] <= max,
        100 * (steps + 1) <= u64::MAX,
        steps < n_symbols,
        steps < n_colors,
    ensures
        scaled_in_range(stats, max, steps, n_symbols, n_colors),
{
    assert forall|i: int| 0 <= i < stats.len() implies {
        &&& stats[i] * 100 <= u64::MAX
        &&& ((stats[i] * 100) / (max as int)) * steps <= u64::MAX
        &&& scaled_level(stats[i], max, steps) < n_symbols
        &&& scaled_level(stats[i], max, steps) < n_colors
    } by {
        let s = stats[i];
        let q = (s * 100) / (max as int);
        assert(0 <= q <= 100) by (nonlinear_arith)
            requires
                0 <= s <= max,
                0 < max,
                q == (s * 100) / (max as int),
        ;
        assert(0 <= q * steps <= 100 * steps) by (nonlinear_arith)
            requires
                0 <= q <= 100,
                steps >= 0,
        ;
        assert((q * steps) / 100 <= steps) by (nonlinear_arith)
            requires
                0 <= q * steps <= 100 * steps,
                steps >= 0,
        ;
    }
}

/// The throughput chart of read readings recorded in two runs is the bars of
/// the first run followed by the chart of the second run.
pub proof fn lemma_disk_chart_concat(
    up_first: Seq<u64>,
    up_rest: Seq<u64>,
    down: Seq<u64>,
    max: u64,
    up_symbols: Seq<Seq<char>>,
    down_symbols: Seq<Seq<char>>,
    up_colors: Seq<Seq<char>>,
    down_colors: Seq<Seq<char>>,
)
    ensures
        disk_chart(up_first + up_rest, down, max, up_symbols, down_symbols, up_colors, down_colors)
            == scaled_bars(up_first, max, (up_symbols.len() - 1) as u64, up_symbols, up_colors)
            + disk_chart(up_rest, down, max, up_symbols, down_symbols, up_colors, down_colors),
{
    lemma_scaled_bars_concat(up_first, up_rest, max, (up_symbols.len() - 1) as u64, up_symbols, up_colors);
}

} // verus!
