//! The network traffic graph: upload and download rates in KBps, charted on a
//! shared scale above and below a middle line.

use vstd::prelude::*;
use crate::chart::{views, scaled_bars, scaled_in_range, scaled_level, push_scaled_bars};
use crate::metrics::{seq_sum, peak, first_fit, sum_u64, peak_u64, lemma_peak_bounds, lemma_sum_below};
use crate::text::{decimal, format_u64, str_eq, occurs_in};
use crate::window::{pushed_window, push_reading};
use crate::disk_usage::disk_chart;

verus! {

/// The traffic counters of one network interface since the last refresh.
pub struct NetCounter {
    pub name: String,
    pub received: u64,
    pub transmitted: u64,
}

/// The bytes that the counters count: received ones when `received`, else
/// transmitted ones; of every interface, or only of those named `iface`.
pub open spec fn counted_bytes(cs: Seq<NetCounter>, iface: Option<Seq<char>>, received: bool) -> int
    decreases cs.len(),
{
    if cs.len() == 0 {
        0
    } else {
        let c = cs.last();
        let here: int = if iface is None || iface == Some(c.name@) {
            if received {
                c.received as int
            } else {
                c.transmitted as int
            }
        } else {
            0
        };
        counted_bytes(cs.drop_last(), iface, received) + here
    }
}

/// A byte count over `polling_secs` seconds, in KB per second:
/// `(total / polling_secs as u64) / 1000`.
pub open spec fn rate_kbps(total: int, polling_secs: i32) -> int {
    (total / ((polling_secs as u64) as int)) / 1000
}

fn counted_total(cs: &Vec<NetCounter>, iface: Option<&str>, received: bool) -> (res: u64)
    requires
        counted_bytes(cs@, match iface {
            Some(s) => Some(s@),
            None => None,
        }, received) <= u64::MAX,
    ensures
        res == counted_bytes(cs@, match iface {
            Some(s) => Some(s@),
            None => None,
        }, received),
{
    let ghost want = match iface {
        Some(s) => Some(s@),
        None => None,
    };
    let mut total: u64 = 0;
    let mut i: usize = 0;
    while i < cs.len()
        invariant
            i <= cs.len(),
            want == match iface {
                Some(s) => Some(s@),
                None => None,
            },
            counted_bytes(cs@, want, received) <= u64::MAX,
            total == counted_bytes(cs@.take(i as int), want, received),
        decreases cs.len() - i,
    {
        assert(cs@.take(i + 1).drop_last() == cs@.take(i as int));
        proof {
            lemma_counted_prefix_le(cs@, want, received, i + 1);
        }
        let c = &cs[i];
        let matches = match iface {
            Some(s) => str_eq(c.name.as_str(), s),
            None => true,
        };
        if matches {
            if received {
                total = total + c.received;
            } else {
                total = total + c.transmitted;
            }
        }
        i += 1;
    }
    assert(cs@.take(cs.len() as int) == cs@);
    total
}

/// A prefix of the counters never counts more bytes than all of them.
proof fn lemma_counted_prefix_le(cs: Seq<NetCounter>, iface: Option<Seq<char>>, received: bool, n: int)
    requires
        0 <= n <= cs.len(),
    ensures
        0 <= counted_bytes(cs.take(n), iface, received) <= counted_bytes(cs, iface, received),
    decreases cs.len(),
{
    if n == cs.len() {
        assert(cs.take(n) == cs);
        lemma_counted_nonneg(cs, iface, received);
    } else {
        lemma_counted_prefix_le(cs.drop_last(), iface, received, n);
        assert(cs.drop_last().take(n) == cs.take(n));
    }
}

proof fn lemma_counted_nonneg(cs: Seq<NetCounter>, iface: Option<Seq<char>>, received: bool)
    ensures
        counted_bytes(cs, iface, received) >= 0,
    decreases cs.len(),
{
    if cs.len() > 0 {
        lemma_counted_nonneg(cs.drop_last(), iface, received);
    }
}

fn kbps(total: u64, polling_secs: i32) -> (res: u64)
    requires
        polling_secs != 0,
    ensures
        res == rate_kbps(total as int, polling_secs),
{
    let secs = polling_secs as u64;
    assert(secs != 0) by (bit_vector)
        requires
            secs == polling_secs as u64,
            polling_secs != 0,
    ;
    (total / secs) / 1000
}

/// The download rate of all interfaces together, in KBps.
pub fn get_tot_stat_dwn(req_net: &Vec<NetCounter>, polling_secs: &i32) -> (res: u64)
    requires
        *polling_secs != 0,
        counted_bytes(req_net@, None, true) <= u64::MAX,
    ensures
        res == rate_kbps(counted_bytes(req_net@, None, true), *polling_secs),
{
    kbps(counted_total(req_net, None, true), *polling_secs)
}

/// The upload rate of all interfaces together, in KBps.
pub fn get_tot_stat_up(req_net: &Vec<NetCounter>, polling_secs: &i32) -> (res: u64)
    requires
        *polling_secs != 0,
        counted_bytes(req_net@, None, false) <= u64::MAX,
    ensures
        res == rate_kbps(counted_bytes(req_net@, None, false), *polling_secs),
{
    kbps(counted_total(req_net, None, false), *polling_secs)
}

/// The download rate of the interfaces named `iface`, in KBps.
pub fn get_iface_stat_dwn(req_net: &Vec<NetCounter>, polling_secs: &i32, iface: &str) -> (res: u64)
    requires
        *polling_secs != 0,
        counted_bytes(req_net@, Some(iface@), true) <= u64::MAX,
    ensures
        res == rate_kbps(counted_bytes(req_net@, Some(iface@), true), *polling_secs),
{
    kbps(counted_total(req_net, Some(iface), true), *polling_secs)
}

/// The upload rate of the interfaces named `iface`, in KBps.
pub fn get_iface_stat_up(req_net: &Vec<NetCounter>, polling_secs: &i32, iface: &str) -> (res: u64)
    requires
        *polling_secs != 0,
        counted_bytes(req_net@, Some(iface@), false) <= u64::MAX,
    ensures
        res == rate_kbps(counted_bytes(req_net@, Some(iface@), false), *polling_secs),
{
    kbps(counted_total(req_net, Some(iface), false), *polling_secs)
}

/// The scales the traffic chart may use, in KBps.
pub open spec fn net_limits() -> Seq<u64> {
    seq![10u64, 20, 30, 50, 75, 100, 200, 300, 400, 500, 750, 1000]
}

/// The scale of the traffic chart: the first of the limits that the highest
/// reading fits under, or 0 when it fits under none.
pub open spec fn net_scale_of(highest: u64) -> u64 {
    match first_fit(net_limits(), highest) {
        Some(limit) => limit,
        None => 0,
    }
}

/// Picks the scale of the traffic chart for its highest reading.
pub fn net_scale(highest: u64) -> (res: u64)
    ensures
        res == net_scale_of(highest),
{
    reveal_with_fuel(first_fit, 13);
    if highest % 10 == highest {
        10
    } else if highest % 20 == highest {
        20
    } else if highest % 30 == highest {
        30
    } else if highest % 50 == highest {
        50
    } else if highest % 75 == highest {
        75
    } else if highest % 100 == highest {
        100
    } else if highest % 200 == highest {
        200
    } else if highest % 300 == highest {
        300
    } else if highest % 400 == highest {
        400
    } else if highest % 500 == highest {
        500
    } else if highest % 750 == highest {
        750
    } else if highest % 1000 == highest {
        1000
    } else {
        0
    }
}

/// The traffic chart: upload bars, a line break, download bars, all in the
/// bold graph font. Both rows take their glyph level from the number of
/// upload glyphs.
pub open spec fn net_chart(
    up: Seq<u64>,
    down: Seq<u64>,
    max: u64,
    up_symbols: Seq<Seq<char>>,
    down_symbols: Seq<Seq<char>>,
    up_colors: Seq<Seq<char>>,
    down_colors: Seq<Seq<char>>,
) -> Seq<char> {
    let steps = (up_symbols.len() - 1) as u64;
    "<span font-family='efe-graph-bold' rise='-4444'>"@ + scaled_bars(
        up,
        max,
        steps,
        up_symbols,
        up_colors,
    ) + "\\r"@ + scaled_bars(down, max, steps, down_symbols, down_colors) + "</span>"@
}

/// Draws the traffic chart of the upload and download histories on the scale `max_value`.
pub fn get_double_chart(
    up_stats_set: &Vec<u64>,
    down_stats_set: &Vec<u64>,
    max_value: &u64,
    up_symbols: &[&str],
    down_symbols: &[&str],
    up_colors: &[&str],
    down_colors: &[&str],
) -> (res: String)
    requires
        up_stats_set@.len() > 0 || down_stats_set@.len() > 0 ==> *max_value > 0 && up_symbols@.len()
            >= 1,
        scaled_in_range(
            up_stats_set@,
            *max_value,
            (up_symbols@.len() - 1) as u64,
            up_symbols@.len(),
            up_colors@.len(),
        ),
        scaled_in_range(
            down_stats_set@,
            *max_value,
            (up_symbols@.len() - 1) as u64,
            down_symbols@.len(),
            down_colors@.len(),
        ),
    ensures
        res@ == net_chart(
            up_stats_set@,
            down_stats_set@,
            *max_value,
            views(up_symbols@),
            views(down_symbols@),
            views(up_colors@),
            views(down_colors@),
        ),
{
    // With both histories empty no glyph level is computed, and no step count is needed.
    let steps: u64 = if up_symbols.len() > 0 {
        up_symbols.len() as u64 - 1
    } else {
        0
    };
    let mut chart = String::new();
    chart.append("<span font-family='efe-graph-bold' rise='-4444'>");
    push_scaled_bars(&mut chart, up_stats_set, *max_value, steps, up_symbols, up_colors);
    chart.append("\\r");
    push_scaled_bars(&mut chart, down_stats_set, *max_value, steps, down_symbols, down_colors);
    chart.append("</span>");
    chart
}

/// The chart scale is the smallest of the limits that lies above the highest
/// reading, and there is none (0) exactly when the highest reading is 1000 or more.
pub proof fn lemma_net_scale(highest: u64)
    ensures
        net_scale_of(highest) == 0 <==> highest >= 1000,
        net_scale_of(highest) != 0 ==> highest < net_scale_of(highest) <= 1000,
        net_scale_of(highest) != 0 ==> net_limits().contains(net_scale_of(highest)),
        forall|i: int|
            0 <= i < net_limits().len() && highest < net_limits()[i] ==> net_scale_of(highest)
                <= net_limits()[i],
{
    reveal_with_fuel(first_fit, 13);
    let s = net_scale_of(highest);
    if s != 0 {
        assert(net_limits()[0] == 10);
        if s == 10 {
            assert(net_limits()[0] == s);
        } else if s == 20 {
            assert(net_limits()[1] == s);
        } else if s == 30 {
            assert(net_limits()[2] == s);
        } else if s == 50 {
            assert(net_limits()[3] == s);
        } else if s == 75 {
            assert(net_limits()[4] == s);
        } else if s == 100 {
            assert(net_limits()[5] == s);
        } else if s == 200 {
            assert(net_limits()[6] == s);
        } else if s == 300 {
            assert(net_limits()[7] == s);
        } else if s == 400 {
            assert(net_limits()[8] == s);
        } else if s == 500 {
            assert(net_limits()[9] == s);
        } else if s == 750 {
            assert(net_limits()[10] == s);
        } else {
            assert(net_limits()[11] == s);
        }
    }
    assert forall|i: int|
        0 <= i < net_limits().len() && highest < net_limits()[i] implies net_scale_of(highest)
        <= net_limits()[i] by {
        if i == 0 {
        } else if i == 1 {
        } else if i == 2 {
        } else if i == 3 {
        } else if i == 4 {
        } else if i == 5 {
        } else if i == 6 {
        } else if i == 7 {
        } else if i == 8 {
        } else if i == 9 {
        } else if i == 10 {
        } else {
        }
    }
}

/// The highest reading of both histories, and at least 1.
pub open spec fn net_highest(up: Seq<u64>, down: Seq<u64>) -> u64 {
    let h = if peak(down) > 1 {
        peak(down)
    } else {
        1
    };
    if peak(up) > h {
        peak(up)
    } else {
        h
    }
}

/// The average of a history: its sum divided by its length.
pub open spec fn average(s: Seq<u64>) -> int {
    seq_sum(s) / (s.len() as int)
}

/// The line the traffic module prints for its histories.
pub open spec fn net_line(
    up: Seq<u64>,
    down: Seq<u64>,
    interface: Seq<char>,
    up_symbols: Seq<Seq<char>>,
    down_symbols: Seq<Seq<char>>,
    up_colors: Seq<Seq<char>>,
    down_colors: Seq<Seq<char>>,
) -> Seq<char> {
    let max = net_scale_of(net_highest(up, down));
    let chart = net_chart(up, down, max, up_symbols, down_symbols, up_colors, down_colors);
    let up_avg = average(up);
    let down_avg = average(down);
    "{\"text\":\""@ + chart + "\",\"tooltip\":\""@ + chart
        + "\",\"class\":\"\",\"alt\":\"Interface : "@ + interface + "\\rUp        : "@ + decimal(
        up.last() as nat,
    ) + " KBps\\rDown      : "@ + decimal(down.last() as nat) + " KBps\\rRange     : 0-"@
        + decimal(max as nat) + " KBps\\rAvg.Up    : "@ + decimal(up_avg as nat)
        + " KBps\\rAvg.Down  : "@ + decimal(down_avg as nat) + " KBps\",\"percentage\":"@
        + decimal(((up_avg + down_avg) / 2) as nat) + "}"@
}

/// The state of the traffic module: the upload and download histories.
pub struct NetGraph {
    pub up_stats: Vec<u64>,
    pub down_stats: Vec<u64>,
    pub history: usize,
}

impl NetGraph {
    /// Both histories hold `history` readings, and `history` readings below
    /// 1000 sum to a `u64`.
    pub open spec fn wf(&self) -> bool {
        &&& self.up_stats@.len() == self.history
        &&& self.down_stats@.len() == self.history
        &&& 0 < self.history
        &&& self.history * 1000 <= u64::MAX
    }

    /// The module at start: `history` zero readings in each history.
    pub fn new(history: usize) -> (g: NetGraph)
        requires
            0 < history,
            history * 1000 <= u64::MAX,
        ensures
            g.wf(),
            g.history == history,
            g.up_stats@ == Seq::new(history as nat, |i: int| 0u64),
            g.down_stats@ == Seq::new(history as nat, |i: int| 0u64),
    {
        let mut up: Vec<u64> = Vec::new();
        let mut down: Vec<u64> = Vec::new();
        let mut i: usize = 0;
        while i < history
            invariant
                i <= history,
                up@ == Seq::new(i as nat, |j: int| 0u64),
                down@ == Seq::new(i as nat, |j: int| 0u64),
            decreases history - i,
        {
            up.push(0);
            down.push(0);
            i += 1;
        }
        NetGraph { up_stats: up, down_stats: down, history }
    }

    /// Records one upload and one download reading.
    pub fn record(&mut self, up: u64, down: u64)
        requires
            old(self).wf(),
        ensures
            final(self).wf(),
            final(self).history == old(self).history,
            final(self).up_stats@ == pushed_window(old(self).up_stats@, old(self).history as nat, up),
            final(self).down_stats@ == pushed_window(
                old(self).down_stats@,
                old(self).history as nat,
                down,
            ),
    {
        let history = self.history;
        push_reading(&mut self.up_stats, history, up);
        push_reading(&mut self.down_stats, history, down);
    }

    /// The highest reading of both histories, at least 1.
    pub fn highest(&self) -> (res: u64)
        ensures
            res == net_highest(self.up_stats@, self.down_stats@),
    {
        let mut highest: u64 = 1;
        let max_down = peak_u64(&self.down_stats);
        let max_up = peak_u64(&self.up_stats);
        if max_down > highest {
            highest = max_down;
        }
        if max_up > highest {
            highest = max_up;
        }
        highest
    }

    /// The scale of the chart, 0 when the highest reading fits under no limit.
    pub fn scale(&self) -> (res: u64)
        ensures
            res == net_scale_of(net_highest(self.up_stats@, self.down_stats@)),
    {
        net_scale(self.highest())
    }

    /// The JSON line for the current histories. The scale must exist: with a
    /// highest reading of 1000 or more there is none, and drawing the chart
    /// would divide by zero.
    pub fn output_line(
        &self,
        interface: &str,
        up_symbols: &[&str],
        down_symbols: &[&str],
        up_colors: &[&str],
        down_colors: &[&str],
    ) -> (res: String)
        requires
            self.wf(),
            net_scale_of(net_highest(self.up_stats@, self.down_stats@)) != 0,
            up_symbols@.len() >= 1,
            100 * up_symbols@.len() <= u64::MAX,
            down_symbols@.len() >= up_symbols@.len(),
            up_colors@.len() >= up_symbols@.len(),
            down_colors@.len() >= up_symbols@.len(),
        ensures
            res@ == net_line(
                self.up_stats@,
                self.down_stats@,
                interface@,
                views(up_symbols@),
                views(down_symbols@),
                views(up_colors@),
                views(down_colors@),
            ),
    {
        let max = self.scale();
        let ghost highest = net_highest(self.up_stats@, self.down_stats@);
        let steps = up_symbols.len() as u64 - 1;
        proof {
            lemma_net_scale(highest);
            lemma_peak_bounds(self.up_stats@);
            lemma_peak_bounds(self.down_stats@);
            lemma_below_scale_in_range(self.up_stats@, max, steps, up_symbols@.len(), up_colors@.len());
            lemma_below_scale_in_range(self.down_stats@, max, steps, down_symbols@.len(), down_colors@.len());
            lemma_sum_below(self.up_stats@, 1000);
            lemma_sum_below(self.down_stats@, 1000);
            assert(self.history * 1000 <= u64::MAX);
        }
        let chart = get_double_chart(
            &self.up_stats,
            &self.down_stats,
            &max,
            up_symbols,
            down_symbols,
            up_colors,
            down_colors,
        );
        let n = self.history as u64;
        let up_sum = sum_u64(&self.up_stats);
        let down_sum = sum_u64(&self.down_stats);
        let up_avg = up_sum / n;
        let down_avg = down_sum / n;
        assert(up_avg < 1000 && down_avg < 1000) by (nonlinear_arith)
            requires
                n > 0,
                up_sum < n * 1000,
                down_sum < n * 1000,
                up_avg == up_sum / n,
                down_avg == down_sum / n,
        ;
        let last_up = self.up_stats[self.history - 1];
        let last_down = self.down_stats[self.history - 1];
        let mut line = String::new();
        line.append("{\"text\":\"");
        line.append(chart.as_str());
        line.append("\",\"tooltip\":\"");
        line.append(chart.as_str());
        line.append("\",\"class\":\"\",\"alt\":\"Interface : ");
        line.append(interface);
        line.append("\\rUp        : ");
        line.append(format_u64(last_up).as_str());
        line.append(" KBps\\rDown      : ");
        line.append(format_u64(last_down).as_str());
        line.append(" KBps\\rRange     : 0-");
        line.append(format_u64(max).as_str());
        line.append(" KBps\\rAvg.Up    : ");
        line.append(format_u64(up_avg).as_str());
        line.append(" KBps\\rAvg.Down  : ");
        line.append(format_u64(down_avg).as_str());
        line.append(" KBps\",\"percentage\":");
        line.append(format_u64((up_avg + down_avg) / 2).as_str());
        line.append("}");
        line
    }
}

/// Readings below a scale of at most 1000 are charted without overflow, on a
/// glyph no higher than `steps`.
proof fn lemma_below_scale_in_range(stats: Seq<u64>, max: u64, steps: u64, n_symbols: nat, n_colors: nat)
    requires
        0 < max <= 1000,
        forall|i: int| 0 <= i < stats.len() ==> stats[i] < max,
        100 * (steps + 1) <= u64::MAX,
        steps < n_symbols,
        steps < n_colors,
    ensures
        scaled_in_range(stats, max, steps, n_symbols, n_colors),
{
    assert forall|i: int| 0 <= i < stats.len() implies {
        &&& stats[i] * 100 <= u64::MAX
        &&& ((stats[i] * 100) / (max as int)) * steps <= u64::MAX
        &&& scaled_level(stats[i], max, steps) < n_symbols
        &&& scaled_level(stats[i], max, steps) < n_colors
    } by {
        lemma_level_le_steps(stats[i], max, steps);
    }
}

/// A reading below the scale lands at most on glyph `steps`.
proof fn lemma_level_le_steps(s: u64, max: u64, steps: u64)
    requires
        0 < max <= 1000,
        s < max,
        100 * (steps + 1) <= u64::MAX,
    ensures
        s * 100 <= u64::MAX,
        ((s * 100) / (max as int)) * steps <= u64::MAX,
        0 <= scaled_level(s, max, steps) <= steps,
{
    let q = (s * 100) / (max as int);
    assert(0 <= q < 100) by (nonlinear_arith)
        requires
            0 <= s < max,
            q == (s * 100) / (max as int),
    ;
    assert(0 <= q * steps <= 99 * steps) by (nonlinear_arith)
        requires
            0 <= q < 100,
            steps >= 0,
    ;
    assert((q * steps) / 100 <= steps) by (nonlinear_arith)
        requires
            0 <= q * steps <= 99 * steps,
            steps >= 0,
    ;
}

/// One interface never receives or sends more than all interfaces together, so
/// its rate never exceeds the total rate.
pub proof fn lemma_iface_within_total(cs: Seq<NetCounter>, iface: Seq<char>, received: bool, polling_secs: i32)
    requires
        polling_secs != 0,
    ensures
        counted_bytes(cs, Some(iface), received) <= counted_bytes(cs, None, received),
        rate_kbps(counted_bytes(cs, Some(iface), received), polling_secs) <= rate_kbps(
            counted_bytes(cs, None, received),
            polling_secs,
        ),
    decreases cs.len(),
{
    if cs.len() > 0 {
        lemma_iface_within_total(cs.drop_last(), iface, received, polling_secs);
    }
    let secs = polling_secs as u64;
    assert(secs != 0) by (bit_vector)
        requires
            secs == polling_secs as u64,
            polling_secs != 0,
    ;
    let a = counted_bytes(cs, Some(iface), received);
    let b = counted_bytes(cs, None, received);
    assert((a / (secs as int)) / 1000 <= (b / (secs as int)) / 1000) by (nonlinear_arith)
        requires
            a <= b,
            secs > 0,
    ;
}

/// The Up and Down figures of the traffic line are the newest readings, the
/// ones just recorded, whatever came before them.
pub proof fn lemma_net_line_shows_newest(
    up: Seq<u64>,
    down: Seq<u64>,
    interface: Seq<char>,
    up_symbols: Seq<Seq<char>>,
    down_symbols: Seq<Seq<char>>,
    up_colors: Seq<Seq<char>>,
    down_colors: Seq<Seq<char>>,
)
    ensures
        occurs_in(
            "\\rUp        : "@ + decimal(up.last() as nat) + " KBps\\rDown      : "@ + decimal(
                down.last() as nat,
            ) + " KBps\\rRange     : 0-"@,
            net_line(up, down, interface, up_symbols, down_symbols, up_colors, down_colors),
        ),
{
    let max = net_scale_of(net_highest(up, down));
    let chart = net_chart(up, down, max, up_symbols, down_symbols, up_colors, down_colors);
    let up_avg = average(up);
    let down_avg = average(down);
    let pre = "{\"text\":\""@ + chart + "\",\"tooltip\":\""@ + chart
        + "\",\"class\":\"\",\"alt\":\"Interface : "@ + interface;
    let part = "\\rUp        : "@ + decimal(up.last() as nat) + " KBps\\rDown      : "@ + decimal(
        down.last() as nat,
    ) + " KBps\\rRange     : 0-"@;
    let post = decimal(max as nat) + " KBps\\rAvg.Up    : "@ + decimal(up_avg as nat)
        + " KBps\\rAvg.Down  : "@ + decimal(down_avg as nat) + " KBps\",\"percentage\":"@
        + decimal(((up_avg + down_avg) / 2) as nat) + "}"@;
    assert(pre + part + post =~= net_line(
        up,
        down,
        interface,
        up_symbols,
        down_symbols,
        up_colors,
        down_colors,
    ));
}

/// With glyph tables of the same length for both rows, the traffic chart is
/// the throughput chart wrapped in the bold graph font span.
pub proof fn lemma_net_chart_is_framed_disk_chart(
    up: Seq<u64>,
    down: Seq<u64>,
    max: u64,
    up_symbols: Seq<Seq<char>>,
    down_symbols: Seq<Seq<char>>,
    up_colors: Seq<Seq<char>>,
    down_colors: Seq<Seq<char>>,
)
    requires
        up_symbols.len() == down_symbols.len(),
    ensures
        net_chart(up, down, max, up_symbols, down_symbols, up_colors, down_colors)
            == "<span font-family='efe-graph-bold' rise='-4444'>"@ + disk_chart(
            up,
            down,
            max,
            up_symbols,
            down_symbols,
            up_colors,
            down_colors,
        ) + "</span>"@,
{
}

} // verus!
