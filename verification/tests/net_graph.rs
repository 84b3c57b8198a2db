use waybar_modules::net_graph::{
    get_double_chart, get_iface_stat_dwn, get_iface_stat_up, get_tot_stat_dwn, get_tot_stat_up,
    net_scale, NetCounter, NetGraph,
};

const COLORSUP: &[&str] = &["#f299b9", "#f288a9", "#f29988", "#f38877", "#f37777", "#f36677", "#f35577", "#f35566", "#f74433", "#f70011"];
const COLORSDOWN: &[&str] = &["#97f0cd", "#87f0bd", "#77f0ad", "#87f0ad", "#67f09d", "#47f08d", "#37f08d", "#27f08d", "#17f08d", "#07f08d"];
const CHARSUP: &[&str] = &[" ", "b", "c", "d", "e", "f", "g", "h", "i", "j"];
const CHARSDOWN: &[&str] = &["k", "l", "m", "n", "o", "p", "q", "r", "s", "t"];

fn reference_chart(up: &Vec<u64>, down: &Vec<u64>, max_value: &u64) -> String {
    let mut return_chart: String = String::from("<span font-family='efe-graph-bold' rise='-4444'>");
    for one_stat in up.iter() {
        let stat_0_to_9: usize = ((((one_stat * 100) / max_value) * (CHARSUP.len() as u64 - 1 as u64)) / 100 as u64) as usize;
        return_chart.push_str(format!("<span color='{}'>{}</span>", &COLORSUP[stat_0_to_9], &CHARSUP[stat_0_to_9]).as_str());
    }
    return_chart.push_str("\\r");
    for one_stat in down.iter() {
        let stat_0_to_9: usize = ((((one_stat * 100) / max_value) * (CHARSUP.len() as u64 - 1 as u64)) / 100 as u64) as usize;
        return_chart.push_str(format!("<span color='{}'>{}</span>", &COLORSDOWN[stat_0_to_9], &CHARSDOWN[stat_0_to_9]).as_str());
    }
    return_chart.push_str("</span>");
    return_chart
}

fn counters() -> Vec<NetCounter> {
    vec![
        NetCounter { name: String::from("eth0"), received: 5000, transmitted: 1000 },
        NetCounter { name: String::from("wlan0"), received: 3000, transmitted: 500 },
        NetCounter { name: String::from("eth0"), received: 2000, transmitted: 4000 },
    ]
}

#[test]
fn net_double_chart_exact() {
    let chart = get_double_chart(&vec![5], &vec![10], &10, CHARSUP, CHARSDOWN, COLORSUP, COLORSDOWN);
    assert_eq!(
        chart,
        "<span font-family='efe-graph-bold' rise='-4444'><span color='#f37777'>e</span>\\r<span color='#07f08d'>t</span></span>"
    );
}

#[test]
fn net_double_chart_matches_reference() {
    let up = vec![0u64, 1, 9, 15, 29, 30];
    let down = vec![30u64, 7, 0, 22, 3, 11];
    for max in [30u64, 50, 75, 100] {
        assert_eq!(
            get_double_chart(&up, &down, &max, CHARSUP, CHARSDOWN, COLORSUP, COLORSDOWN),
            reference_chart(&up, &down, &max)
        );
    }
}

#[test]
fn total_rates() {
    let cs = counters();
    assert_eq!(get_tot_stat_dwn(&cs, &2), 5);
    assert_eq!(get_tot_stat_up(&cs, &2), 2);
    assert_eq!(get_tot_stat_dwn(&cs, &1), 10);
}

#[test]
fn interface_rates() {
    let cs = counters();
    assert_eq!(get_iface_stat_dwn(&cs, &2, "eth0"), 3);
    assert_eq!(get_iface_stat_up(&cs, &2, "eth0"), 2);
    assert_eq!(get_iface_stat_dwn(&cs, &1, "wlan0"), 3);
    assert_eq!(get_iface_stat_up(&cs, &1, "lo"), 0);
}

#[test]
fn interface_rate_never_above_total() {
    let cs = counters();
    for secs in [1i32, 2, 3, 7] {
        for iface in ["eth0", "wlan0", "lo"] {
            assert!(get_iface_stat_dwn(&cs, &secs, iface) <= get_tot_stat_dwn(&cs, &secs));
            assert!(get_iface_stat_up(&cs, &secs, iface) <= get_tot_stat_up(&cs, &secs));
        }
    }
}

#[test]
fn negative_interval_divides_by_a_huge_number() {
    let cs = counters();
    assert_eq!(get_tot_stat_dwn(&cs, &-1), 0);
}

#[test]
fn no_interfaces_no_traffic() {
    let cs: Vec<NetCounter> = Vec::new();
    assert_eq!(get_tot_stat_dwn(&cs, &2), 0);
    assert_eq!(get_iface_stat_up(&cs, &2, "eth0"), 0);
}

#[test]
fn scale_is_first_limit_above_highest() {
    assert_eq!(net_scale(0), 10);
    assert_eq!(net_scale(1), 10);
    assert_eq!(net_scale(9), 10);
    assert_eq!(net_scale(10), 20);
    assert_eq!(net_scale(74), 75);
    assert_eq!(net_scale(75), 100);
    assert_eq!(net_scale(749), 750);
    assert_eq!(net_scale(999), 1000);
    assert_eq!(net_scale(1000), 0);
    assert_eq!(net_scale(123456), 0);
    let limits = [10u64, 20, 30, 50, 75, 100, 200, 300, 400, 500, 750, 1000];
    for h in 0..1200u64 {
        let expected = limits.iter().copied().find(|l| h % l == h).unwrap_or(0);
        assert_eq!(net_scale(h), expected);
    }
}

#[test]
fn graph_starts_with_zero_history() {
    let g = NetGraph::new(4);
    assert_eq!(g.up_stats, vec![0, 0, 0, 0]);
    assert_eq!(g.down_stats, vec![0, 0, 0, 0]);
    assert_eq!(g.highest(), 1);
    assert_eq!(g.scale(), 10);
}

#[test]
fn net_graph_output_line() {
    let mut g = NetGraph::new(3);
    g.record(1, 2);
    g.record(40, 5);
    assert_eq!(g.up_stats, vec![0, 1, 40]);
    assert_eq!(g.down_stats, vec![0, 2, 5]);
    assert_eq!(g.highest(), 40);
    let max = g.scale();
    assert_eq!(max, 50);
    let line = g.output_line("eth0", CHARSUP, CHARSDOWN, COLORSUP, COLORSDOWN);
    let net_chart = reference_chart(&g.up_stats, &g.down_stats, &max);
    let up_stats_avg: i32 = (41u64 / 3) as i32;
    let down_stats_avg: i32 = (7u64 / 3) as i32;
    let sum_stats_avg: i32 = (up_stats_avg + down_stats_avg) / 2;
    let expected = format!("{{\"text\":\"{}\",\"tooltip\":\"{}\",\"class\":\"\",\"alt\":\"Interface : {}\\rUp        : {} KBps\\rDown      : {} KBps\\rRange     : 0-{} KBps\\rAvg.Up    : {} KBps\\rAvg.Down  : {} KBps\",\"percentage\":{}}}", &net_chart, &net_chart, "eth0", 40, 5, &max, &up_stats_avg, &down_stats_avg, &sum_stats_avg);
    assert_eq!(line, expected);
}

#[test]
fn both_traffic_histories_empty_give_the_frame() {
    assert_eq!(
        get_double_chart(&vec![], &vec![], &0, &[], &[], &[], &[]),
        "<span font-family='efe-graph-bold' rise='-4444'>\\r</span>"
    );
}

#[test]
fn traffic_chart_is_the_throughput_chart_in_bold() {
    let up = vec![0, 4, 9];
    let down = vec![7, 2];
    let net = get_double_chart(&up, &down, &10, CHARSUP, CHARSDOWN, COLORSUP, COLORSDOWN);
    let disk = waybar_modules::disk_usage::get_double_chart(&up, &down, &10, CHARSUP, CHARSDOWN, COLORSUP, COLORSDOWN);
    assert_eq!(net, format!("<span font-family='efe-graph-bold' rise='-4444'>{}</span>", disk));
}
